//! Text edits on widget documents: filling declarative text bindings and escaping
//! attribute values.

use vstd::prelude::*;

use crate::text::{
    chars_of, find_chars_from, find_first, find_from, lemma_find_from, occurs_at, push_char,
    substring,
};

verus! {

/// The attribute marker that opens an element bound to `path`: `data-cw-text="path">`.
pub open spec fn text_marker(path: Seq<char>) -> Seq<char> {
    "data-cw-text=\""@ + path + "\">"@
}

/// `html` with the text after the first element bound to `path` replaced by `value`, up
/// to the next `<`; unchanged when there is no such element or no `<` after it.
pub open spec fn bound_text_replaced(html: Seq<char>, path: Seq<char>, value: Seq<char>) -> Seq<char> {
    match find_first(html, text_marker(path)) {
        None => html,
        Some(at) => {
            let start = at + text_marker(path).len();
            match find_from(html, seq!['<'], start) {
                None => html,
                Some(end) => html.take(start) + value + html.skip(end),
            }
        },
    }
}

/// Replaces the text content that follows `data-cw-text="path">` with `value`.
pub fn set_bound_text(html: &mut String, path: &str, value: &str)
    ensures
        final(html)@ == bound_text_replaced(old(html)@, path@, value@),
{
    let mut marker = String::from_str("data-cw-text=\"");
    marker.append(path);
    marker.append("\">");
    let text = chars_of(html.as_str());
    let pattern = chars_of(marker.as_str());
    let at = match find_chars_from(&text, &pattern, 0) {
        Some(at) => at,
        None => return,
    };
    let tlen = text.len();
    proof {
        lemma_find_from(text@, pattern@, 0);
    }
    let start = at + pattern.len();
    let open = vec!['<'];
    assert(open@ =~= seq!['<']);
    let end = match find_chars_from(&text, &open, start) {
        Some(end) => end,
        None => return,
    };
    proof {
        lemma_find_from(text@, open@, start as int);
    }
    let mut result = substring(&text, 0, start);
    result.append(value);
    let rest = substring(&text, end, text.len());
    result.append(rest.as_str());
    proof {
        assert(text@.subrange(0, start as int) =~= text@.take(start as int));
        assert(text@.subrange(end as int, text@.len() as int) =~= text@.skip(end as int));
    }
    *html = result;
}

/// Filling a binding replaces exactly the text of the first bound element: when the
/// marker `data-cw-text="path">` first occurs at `at` and ends at `start`, and the first
/// `<` at or after `start` is at `end`, the result is the html up to `start`, then
/// `value`, then the html from `end` on. An empty element (`end == start`) gets the
/// value in front of its closing tag.
pub proof fn lemma_bound_text_fills_first_bound_element(
    html: Seq<char>,
    path: Seq<char>,
    value: Seq<char>,
    at: int,
    end: int,
)
    requires
        0 <= at,
        at + ("data-cw-text=\""@ + path + "\">"@).len() <= end < html.len(),
        occurs_at(html, "data-cw-text=\""@ + path + "\">"@, at),
        forall|j: int|
            0 <= j < at ==> !#[trigger] occurs_at(html, "data-cw-text=\""@ + path + "\">"@, j),
        html[end] == '<',
        forall|k: int| at + ("data-cw-text=\""@ + path + "\">"@).len() <= k < end ==> html[k] != '<',
    ensures
        bound_text_replaced(html, path, value) == html.take(
            at + ("data-cw-text=\""@ + path + "\">"@).len(),
        ) + value + html.skip(end),
{
    let marker = text_marker(path);
    let start = at + marker.len();
    lemma_find_from(html, marker, 0);
    assert(occurs_at(html, marker, at));
    let found = find_from(html, marker, 0);
    assert(found == Some(at)) by {
        if found is None {
        } else {
            let f = found->0;
            if f < at {
                assert(occurs_at(html, marker, f));
            } else if f > at {
            }
        }
    }
    lemma_find_from(html, seq!['<'], start);
    assert(html.subrange(end, end + 1) =~= seq!['<']);
    assert(occurs_at(html, seq!['<'], end));
    let close = find_from(html, seq!['<'], start);
    assert(close == Some(end)) by {
        if close is Some {
            let c = close->0;
            if c < end {
                assert(html.subrange(c, c + 1)[0] == html[c]);
            }
        }
    }
}

/// A document without the marker `data-cw-text="path">` is left as it is.
pub proof fn lemma_bound_text_without_marker(html: Seq<char>, path: Seq<char>, value: Seq<char>)
    requires
        forall|j: int| !#[trigger] occurs_at(html, "data-cw-text=\""@ + path + "\">"@, j),
    ensures
        bound_text_replaced(html, path, value) == html,
{
    lemma_find_from(html, text_marker(path), 0);
}

/// The attribute-safe form of one character.
pub open spec fn escaped_char(c: char) -> Seq<char> {
    if c == '&' {
        "&amp;"@
    } else if c == '"' {
        "&quot;"@
    } else if c == '<' {
        "&lt;"@
    } else {
        seq![c]
    }
}

/// `value` with `&`, `"` and `<` replaced by their character references.
pub open spec fn escaped_attribute(value: Seq<char>) -> Seq<char>
    decreases value.len(),
{
    if value.len() == 0 {
        Seq::empty()
    } else {
        escaped_attribute(value.drop_last()) + escaped_char(value.last())
    }
}

/// Escapes an attribute value so that it cannot close its quotes or open a tag.
pub fn escape_attribute(value: &str) -> (res: String)
    ensures
        res@ == escaped_attribute(value@),
{
    let mut out = String::new();
    for c in it: value.chars()
        invariant
            it.seq() == value@,
            out@ == escaped_attribute(value@.take(it.index() as int)),
    {
        let ghost i = it.index() as int;
        if c == '&' {
            out.append("&amp;");
        } else if c == '"' {
            out.append("&quot;");
        } else if c == '<' {
            out.append("&lt;");
        } else {
            push_char(&mut out, c);
        }
        proof {
            let next = value@.take(i + 1);
            assert(next.drop_last() =~= value@.take(i));
            assert(next.last() == c);
        }
    }
    assert(value@.take(value@.len() as int) =~= value@);
    out
}

} // verus!

verus! {

/// An escaped attribute value holds no `"` and no `<`, so it can neither close the
/// attribute's quotes nor open a tag.
pub proof fn lemma_escaped_attribute_is_inert(value: Seq<char>)
    ensures
        forall|i: int|
            0 <= i < escaped_attribute(value).len() ==> #[trigger] escaped_attribute(value)[i]
                != '"' && escaped_attribute(value)[i] != '<',
    decreases value.len(),
{
    reveal_strlit("&amp;");
    reveal_strlit("&quot;");
    reveal_strlit("&lt;");
    if value.len() > 0 {
        lemma_escaped_attribute_is_inert(value.drop_last());
        let head = escaped_attribute(value.drop_last());
        let tail = escaped_char(value.last());
        assert forall|i: int| 0 <= i < tail.len() implies #[trigger] tail[i] != '"' && tail[i] != '<' by {
        }
        assert forall|i: int| 0 <= i < escaped_attribute(value).len() implies #[trigger] escaped_attribute(value)[i]
            != '"' && escaped_attribute(value)[i] != '<' by {
            if i < head.len() {
                assert(escaped_attribute(value)[i] == head[i]);
            } else {
                assert(escaped_attribute(value)[i] == tail[i - head.len()]);
            }
        }
    }
}

/// Escaping is the identity on values without `&`, `"` and `<`.
pub proof fn lemma_escape_keeps_plain_values(value: Seq<char>)
    requires
        forall|i: int| 0 <= i < value.len() ==> #[trigger] value[i] != '&' && value[i] != '"' && value[i] != '<',
    ensures
        escaped_attribute(value) == value,
    decreases value.len(),
{
    if value.len() > 0 {
        lemma_escape_keeps_plain_values(value.drop_last());
        assert(value.drop_last().push(value.last()) =~= value);
    }
}

} // verus!

verus! {

/// `n` in decimal, padded with a leading zero to at least two digits, as `{:02}` prints.
pub open spec fn two_digits(n: nat) -> Seq<char> {
    if n < 10 {
        seq!['0'] + crate::text::decimal(n)
    } else {
        crate::text::decimal(n)
    }
}

/// `n` in decimal with a leading `-` when negative, as `{}` prints a signed integer.
pub open spec fn signed_decimal(n: int) -> Seq<char> {
    if n < 0 {
        seq!['-'] + crate::text::decimal((-n) as nat)
    } else {
        crate::text::decimal(n as nat)
    }
}

/// The clock's time text, `HH:MM`.
pub open spec fn clock_time_text(hour: nat, minute: nat) -> Seq<char> {
    two_digits(hour) + seq![':'] + two_digits(minute)
}

/// The clock's date text, `<Month> <day>, <year>`.
pub open spec fn clock_date_text(month: Seq<char>, day: nat, year: int) -> Seq<char> {
    month + seq![' '] + crate::text::decimal(day) + seq![',', ' '] + signed_decimal(year)
}

/// The complete clock document: the template with its weekday, time and date bindings
/// filled in, inside a page whose style sheet holds the theme tokens, a transparent
/// full-size body, and the widget's own style.
pub open spec fn clock_document_text(
    template: Seq<char>,
    style: Seq<char>,
    theme_css: Seq<char>,
    weekday: Seq<char>,
    hour: nat,
    minute: nat,
    month: Seq<char>,
    day: nat,
    year: int,
) -> Seq<char> {
    let with_weekday = bound_text_replaced(template, "clock.weekday"@, weekday);
    let with_time = bound_text_replaced(with_weekday, "clock.time"@, clock_time_text(hour, minute));
    let body = bound_text_replaced(with_time, "clock.date"@, clock_date_text(month, day, year));
    "<!doctype html><html><head><style>"@ + theme_css
        + "\nhtml,body{margin:0;width:100%;height:100%;background:transparent}\n"@ + style
        + "</style></head><body>"@ + body + "</body></html>"@
}

fn push_two_digits(out: &mut String, n: u8)
    ensures
        final(out)@ == old(out)@ + two_digits(n as nat),
{
    if n < 10 {
        push_char(out, '0');
    }
    crate::text::push_decimal(out, n as u64);
    proof {
        if n < 10 {
            assert(final(out)@ =~= old(out)@ + two_digits(n as nat));
        }
    }
}

fn push_signed_decimal(out: &mut String, n: i32)
    ensures
        final(out)@ == old(out)@ + signed_decimal(n as int),
{
    if n < 0 {
        push_char(out, '-');
        let magnitude = (0i64 - (n as i64)) as u64;
        crate::text::push_decimal(out, magnitude);
        assert(final(out)@ =~= old(out)@ + signed_decimal(n as int));
    } else {
        crate::text::push_decimal(out, n as u64);
    }
}

/// Renders the clock widget for one moment.
pub fn clock_document(
    template: &str,
    style: &str,
    theme_css: &str,
    weekday: &str,
    hour: u8,
    minute: u8,
    month: &str,
    day: u8,
    year: i32,
) -> (res: String)
    ensures
        res@ == clock_document_text(
            template@,
            style@,
            theme_css@,
            weekday@,
            hour as nat,
            minute as nat,
            month@,
            day as nat,
            year as int,
        ),
{
    let mut html = String::from_str(template);
    set_bound_text(&mut html, "clock.weekday", weekday);
    let mut time = String::new();
    push_two_digits(&mut time, hour);
    push_char(&mut time, ':');
    push_two_digits(&mut time, minute);
    assert(time@ =~= clock_time_text(hour as nat, minute as nat));
    set_bound_text(&mut html, "clock.time", time.as_str());
    let mut date = String::from_str(month);
    push_char(&mut date, ' ');
    crate::text::push_decimal(&mut date, day as u64);
    push_char(&mut date, ',');
    push_char(&mut date, ' ');
    push_signed_decimal(&mut date, year);
    assert(date@ =~= clock_date_text(month@, day as nat, year as int));
    set_bound_text(&mut html, "clock.date", date.as_str());
    let mut page = String::from_str("<!doctype html><html><head><style>");
    page.append(theme_css);
    page.append("\nhtml,body{margin:0;width:100%;height:100%;background:transparent}\n");
    page.append(style);
    page.append("</style></head><body>");
    page.append(html.as_str());
    page.append("</body></html>");
    page
}

/// The digit character of `d < 10` reads back as `d`.
proof fn lemma_digit_char_value(d: nat)
    requires
        d < 10,
    ensures
        '0' <= crate::text::digit_char(d) <= '9',
        (crate::text::digit_char(d) as int) - ('0' as int) == d,
{
}

/// `two_digits(n)` of `n < 100` is two decimal digits that read back as `n`.
proof fn lemma_two_digits_value(n: nat)
    requires
        n < 100,
    ensures
        two_digits(n).len() == 2,
        '0' <= two_digits(n)[0] <= '9',
        '0' <= two_digits(n)[1] <= '9',
        ((two_digits(n)[0] as int) - ('0' as int)) * 10 + ((two_digits(n)[1] as int) - ('0' as int))
            == n,
{
    reveal_with_fuel(crate::text::decimal, 2);
    let tens = n / 10;
    let ones = n % 10;
    lemma_digit_char_value(tens);
    lemma_digit_char_value(ones);
    lemma_digit_char_value(0);
    if n < 10 {
        assert(two_digits(n) =~= seq!['0', crate::text::digit_char(n)]);
    } else {
        assert(crate::text::decimal(tens) =~= seq![crate::text::digit_char(tens)]);
        assert(two_digits(n) =~= seq![crate::text::digit_char(tens), crate::text::digit_char(ones)]);
    }
}

/// The clock shows the time of day as `HH:MM` on a 24-hour clock: for an hour and a
/// minute below 100 the time text is five characters, two decimal digits that read back
/// as the hour, `:`, and two that read back as the minute; and the page fills the
/// `clock.time` binding with exactly that text, after the weekday and before the date.
pub proof fn lemma_clock_document_shows_time(
    template: Seq<char>,
    style: Seq<char>,
    theme_css: Seq<char>,
    weekday: Seq<char>,
    hour: nat,
    minute: nat,
    month: Seq<char>,
    day: nat,
    year: int,
)
    requires
        hour < 100,
        minute < 100,
    ensures
        ({
            let t = clock_time_text(hour, minute);
            &&& t.len() == 5
            &&& t[2] == ':'
            &&& '0' <= t[0] <= '9' && '0' <= t[1] <= '9'
            &&& '0' <= t[3] <= '9' && '0' <= t[4] <= '9'
            &&& ((t[0] as int) - ('0' as int)) * 10 + ((t[1] as int) - ('0' as int)) == hour
            &&& ((t[3] as int) - ('0' as int)) * 10 + ((t[4] as int) - ('0' as int)) == minute
            &&& clock_document_text(
                template,
                style,
                theme_css,
                weekday,
                hour,
                minute,
                month,
                day,
                year,
            ) == "<!doctype html><html><head><style>"@ + theme_css
                + "\nhtml,body{margin:0;width:100%;height:100%;background:transparent}\n"@ + style
                + "</style></head><body>"@ + bound_text_replaced(
                bound_text_replaced(
                    bound_text_replaced(template, "clock.weekday"@, weekday),
                    "clock.time"@,
                    t,
                ),
                "clock.date"@,
                clock_date_text(month, day, year),
            ) + "</body></html>"@
        }),
{
    lemma_two_digits_value(hour);
    lemma_two_digits_value(minute);
    let t = clock_time_text(hour, minute);
    assert(t[0] == two_digits(hour)[0]);
    assert(t[1] == two_digits(hour)[1]);
    assert(t[3] == two_digits(minute)[0]);
    assert(t[4] == two_digits(minute)[1]);
}

} // verus!
