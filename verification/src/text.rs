//! Character-level text helpers shared by manifest validation, CSS generation and
//! HTML scanning.

use vstd::prelude::*;

verus! {

/// Decimal digits of `n`, most significant first, without leading zeros.
pub open spec fn decimal(n: nat) -> Seq<char>
    decreases n,
{
    if n < 10 {
        seq![digit_char(n)]
    } else {
        decimal(n / 10).push(digit_char(n % 10))
    }
}

/// The ASCII digit for `d < 10`.
pub open spec fn digit_char(d: nat) -> char {
    if d == 0 { '0' }
    else if d == 1 { '1' }
    else if d == 2 { '2' }
    else if d == 3 { '3' }
    else if d == 4 { '4' }
    else if d == 5 { '5' }
    else if d == 6 { '6' }
    else if d == 7 { '7' }
    else if d == 8 { '8' }
    else { '9' }
}

fn digit_str(d: u64) -> (res: &'static str)
    requires
        d < 10,
    ensures
        res@ == seq![digit_char(d as nat)],
{
    proof {
        reveal_strlit("0");
        reveal_strlit("1");
        reveal_strlit("2");
        reveal_strlit("3");
        reveal_strlit("4");
        reveal_strlit("5");
        reveal_strlit("6");
        reveal_strlit("7");
        reveal_strlit("8");
        reveal_strlit("9");
    }
    if d == 0 { "0" }
    else if d == 1 { "1" }
    else if d == 2 { "2" }
    else if d == 3 { "3" }
    else if d == 4 { "4" }
    else if d == 5 { "5" }
    else if d == 6 { "6" }
    else if d == 7 { "7" }
    else if d == 8 { "8" }
    else { "9" }
}

/// Appends the decimal form of `n` to `out`.
pub fn push_decimal(out: &mut String, n: u64)
    ensures
        final(out)@ == old(out)@ + decimal(n as nat),
    decreases n,
{
    if n < 10 {
        out.append(digit_str(n));
    } else {
        push_decimal(out, n / 10);
        out.append(digit_str(n % 10));
    }
}

/// `pattern` occurs in `text` at position `at`.
pub open spec fn occurs_at(text: Seq<char>, pattern: Seq<char>, at: int) -> bool {
    0 <= at && at + pattern.len() <= text.len() && text.subrange(at, at + pattern.len())
        == pattern
}

/// `pattern` occurs somewhere in `text`.
pub open spec fn contains_seq(text: Seq<char>, pattern: Seq<char>) -> bool {
    exists|at: int| occurs_at(text, pattern, at)
}

/// First position at or after `from` where `pattern` occurs in `text`.
pub open spec fn find_from(text: Seq<char>, pattern: Seq<char>, from: int) -> Option<int>
    decreases text.len() + 1 - from,
{
    if from < 0 || from + pattern.len() > text.len() {
        None
    } else if occurs_at(text, pattern, from) {
        Some(from)
    } else {
        find_from(text, pattern, from + 1)
    }
}

/// First position where `pattern` occurs in `text`.
pub open spec fn find_first(text: Seq<char>, pattern: Seq<char>) -> Option<int> {
    find_from(text, pattern, 0)
}

/// `find_from` finds an occurrence exactly when one exists at or after `from`, and it
/// finds the earliest one.
pub proof fn lemma_find_from(text: Seq<char>, pattern: Seq<char>, from: int)
    requires
        0 <= from,
    ensures
        find_from(text, pattern, from) matches Some(at) ==> from <= at && occurs_at(text, pattern, at)
            && forall|j: int| from <= j < at ==> !occurs_at(text, pattern, j),
        find_from(text, pattern, from) is None ==> forall|j: int|
            from <= j ==> !occurs_at(text, pattern, j),
    decreases text.len() + 1 - from,
{
    if from + pattern.len() > text.len() {
    } else if occurs_at(text, pattern, from) {
    } else {
        lemma_find_from(text, pattern, from + 1);
        assert forall|j: int| from <= j && !(from + 1 <= j) implies !occurs_at(text, pattern, j) by {
            assert(j == from);
        }
    }
}

/// A pattern occurs in a text exactly when `find_first` finds it.
pub proof fn lemma_find_first_contains(text: Seq<char>, pattern: Seq<char>)
    ensures
        find_first(text, pattern) is Some <==> contains_seq(text, pattern),
{
    lemma_find_from(text, pattern, 0);
    if find_first(text, pattern) is None {
        assert forall|at: int| !occurs_at(text, pattern, at) by {
            if 0 <= at {
            }
        }
    }
}

/// Copies the characters of `s` into a vector.
pub fn chars_of(s: &str) -> (res: Vec<char>)
    ensures
        res@ == s@,
{
    let mut out: Vec<char> = Vec::new();
    for c in it: s.chars()
        invariant
            it.seq() == s@,
            out@ == it.seq().take(it.index() as int),
    {
        out.push(c);
        assert(out@ =~= it.seq().take(it.index() + 1));
    }
    assert(out@ =~= s@);
    out
}

/// Whether `pattern` occurs in `text` starting at `at`.
pub fn matches_at(text: &Vec<char>, pattern: &Vec<char>, at: usize) -> (res: bool)
    ensures
        res == occurs_at(text@, pattern@, at as int),
{
    if pattern.len() > text.len() || at > text.len() - pattern.len() {
        return false;
    }
    let mut k: usize = 0;
    let plen = pattern.len();
    let tlen = text.len();
    while k < plen
        invariant
            plen == pattern@.len(),
            tlen == text@.len(),
            at + pattern@.len() <= text@.len(),
            k <= pattern@.len(),
            forall|m: int| 0 <= m < k ==> text@[at + m] == pattern@[m],
        decreases pattern@.len() - k,
    {
        if text[at + k] != pattern[k] {
            assert(text@.subrange(at as int, at + pattern@.len())[k as int] != pattern@[k as int]);
            return false;
        }
        k = k + 1;
    }
    assert(text@.subrange(at as int, at + pattern@.len()) =~= pattern@);
    true
}

/// First position at or after `from` where `pattern` occurs in `text`.
pub fn find_chars_from(text: &Vec<char>, pattern: &Vec<char>, from: usize) -> (res: Option<usize>)
    ensures
        res matches Some(at) ==> find_from(text@, pattern@, from as int) == Some(at as int),
        res is None ==> find_from(text@, pattern@, from as int) is None,
{
    if pattern.len() > text.len() || from > text.len() - pattern.len() {
        return None;
    }
    let last = text.len() - pattern.len();
    let mut at = from;
    loop
        invariant
            from <= at <= last,
            last + pattern@.len() == text@.len(),
            find_from(text@, pattern@, from as int) == find_from(text@, pattern@, at as int),
        decreases last - at,
    {
        if matches_at(text, pattern, at) {
            return Some(at);
        }
        if at == last {
            assert(find_from(text@, pattern@, at + 1) is None);
            return None;
        }
        at = at + 1;
    }
}

/// Whether `pattern` occurs anywhere in `text`.
pub fn contains_chars(text: &Vec<char>, pattern: &Vec<char>) -> (res: bool)
    ensures
        res == contains_seq(text@, pattern@),
{
    proof {
        lemma_find_first_contains(text@, pattern@);
    }
    find_chars_from(text, pattern, 0).is_some()
}

/// Whether `pattern` occurs anywhere in `text`.
pub fn contains_str(text: &str, pattern: &str) -> (res: bool)
    ensures
        res == contains_seq(text@, pattern@),
{
    let t = chars_of(text);
    let p = chars_of(pattern);
    contains_chars(&t, &p)
}

/// Characters `from..to` of `s` as a new string.
pub fn substring(s: &Vec<char>, from: usize, to: usize) -> (res: String)
    requires
        from <= to <= s@.len(),
    ensures
        res@ == s@.subrange(from as int, to as int),
{
    let mut out = String::new();
    let mut i = from;
    while i < to
        invariant
            from <= i <= to <= s@.len(),
            out@ == s@.subrange(from as int, i as int),
        decreases to - i,
    {
        push_char(&mut out, s[i]);
        assert(out@ =~= s@.subrange(from as int, i + 1));
        i = i + 1;
    }
    out
}

/// Appends one character to `out`.
#[verifier::external_body]
pub(crate) fn push_char(out: &mut String, c: char)
    ensures
        final(out)@ == old(out)@.push(c),
{
    out.push(c);
}

/// `a` sorts before `b` from position `at` on, both agreeing before `at`: the first
/// differing character decides by code point, and a text that runs out first comes
/// first.
pub open spec fn text_lt_from(a: Seq<char>, b: Seq<char>, at: int) -> bool
    decreases a.len() - at,
{
    if at >= a.len() {
        at < b.len()
    } else if at >= b.len() {
        false
    } else if a[at] != b[at] {
        (a[at] as int) < (b[at] as int)
    } else {
        text_lt_from(a, b, at + 1)
    }
}

/// `a` sorts strictly before `b` in the order of `str`'s `Ord`. That order compares
/// UTF-8 bytes, which orders characters as their code points do.
pub open spec fn text_lt(a: Seq<char>, b: Seq<char>) -> bool {
    text_lt_from(a, b, 0)
}

/// No text sorts before itself.
pub proof fn lemma_text_lt_irreflexive(a: Seq<char>, at: int)
    requires
        0 <= at,
    ensures
        !text_lt_from(a, a, at),
    decreases a.len() - at,
{
    if at < a.len() {
        lemma_text_lt_irreflexive(a, at + 1);
    }
}

/// The order is transitive.
pub proof fn lemma_text_lt_transitive(a: Seq<char>, b: Seq<char>, c: Seq<char>, at: int)
    requires
        0 <= at,
        text_lt_from(a, b, at),
        text_lt_from(b, c, at),
    ensures
        text_lt_from(a, c, at),
    decreases a.len() - at,
{
    if at < a.len() && a[at] == b[at] && b[at] == c[at] {
        lemma_text_lt_transitive(a, b, c, at + 1);
    }
}

/// Two different texts are ordered one way or the other.
pub proof fn lemma_text_lt_total(a: Seq<char>, b: Seq<char>, at: int)
    requires
        0 <= at <= a.len(),
        at <= b.len(),
        a.skip(at) != b.skip(at),
    ensures
        text_lt_from(a, b, at) || text_lt_from(b, a, at),
    decreases a.len() - at,
{
    if at == a.len() && at == b.len() {
        assert(a.skip(at) =~= b.skip(at));
    } else if at < a.len() && at < b.len() && a[at] == b[at] {
        if a.skip(at + 1) == b.skip(at + 1) {
            assert(a.skip(at) =~= b.skip(at)) by {
                assert(a.skip(at + 1).len() == b.skip(at + 1).len());
                assert(a.len() == b.len());
                assert forall|k: int| 0 <= k < a.skip(at).len() implies a.skip(at)[k] == b.skip(at)[k] by {
                    if k > 0 {
                        assert(a.skip(at)[k] == a.skip(at + 1)[k - 1]);
                        assert(b.skip(at)[k] == b.skip(at + 1)[k - 1]);
                    }
                }
            }
        }
        lemma_text_lt_total(a, b, at + 1);
    } else if at < a.len() && at < b.len() {
        assert((a[at] as int) != (b[at] as int));
    }
}

/// Whether `a` sorts strictly before `b`, as `a < b` on strings does.
pub fn text_before(a: &str, b: &str) -> (res: bool)
    ensures
        res == text_lt(a@, b@),
{
    let a_len = a.unicode_len();
    let b_len = b.unicode_len();
    let mut i: usize = 0;
    while i < a_len && i < b_len
        invariant
            a_len == a@.len(),
            b_len == b@.len(),
            i <= a_len,
            i <= b_len,
            text_lt_from(a@, b@, 0) == text_lt_from(a@, b@, i as int),
        decreases a_len - i,
    {
        let ca = a.get_char(i);
        let cb = b.get_char(i);
        if ca != cb {
            return (ca as u32) < (cb as u32);
        }
        i = i + 1;
    }
    i < b_len
}

} // verus!
