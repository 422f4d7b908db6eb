use cosmic_widgets::{escape_attribute, set_bound_text};

#[test]
fn escape_attribute_should_replace_quotes_ampersands_and_tags() {
    assert_eq!(escape_attribute("example\" bad"), "example&quot; bad");
    assert_eq!(escape_attribute("a&b<c>\"d"), "a&amp;b&lt;c>&quot;d");
    assert_eq!(escape_attribute("plain"), "plain");
    assert_eq!(escape_attribute(""), "");
}

#[test]
fn set_bound_text_should_replace_bound_content() {
    let mut html = String::from("<p data-cw-text=\"clock.time\">--:--</p><p data-cw-text=\"clock.date\">x</p>");
    set_bound_text(&mut html, "clock.time", "10:42");
    assert_eq!(html, "<p data-cw-text=\"clock.time\">10:42</p><p data-cw-text=\"clock.date\">x</p>");
    set_bound_text(&mut html, "clock.date", "Monday");
    assert_eq!(html, "<p data-cw-text=\"clock.time\">10:42</p><p data-cw-text=\"clock.date\">Monday</p>");
}

#[test]
fn set_bound_text_should_leave_unbound_documents_alone() {
    let untouched = "<p data-cw-text=\"clock.time\">--:--</p>";
    let mut html = String::from(untouched);
    set_bound_text(&mut html, "clock.weekday", "Monday");
    assert_eq!(html, untouched);
    let mut open = String::from("<p data-cw-text=\"clock.time\">no closing tag");
    set_bound_text(&mut open, "clock.time", "10:42");
    assert_eq!(open, "<p data-cw-text=\"clock.time\">no closing tag");
}

#[test]
fn set_bound_text_should_handle_non_ascii_text() {
    let mut html = String::from("<h1>Zeit ⏰</h1><p data-cw-text=\"clock.time\">ü</p>");
    set_bound_text(&mut html, "clock.time", "12:00 ✓");
    assert_eq!(html, "<h1>Zeit ⏰</h1><p data-cw-text=\"clock.time\">12:00 ✓</p>");
}

#[test]
fn clock_document_should_fill_bindings_and_wrap_page() {
    let template = "<p data-cw-text=\"clock.weekday\">-</p><p data-cw-text=\"clock.time\">-</p><p data-cw-text=\"clock.date\">-</p>";
    let page = cosmic_widgets::clock_document(template, "p{}", ":root{}", "Monday", 9, 5, "March", 7, 2025);
    assert_eq!(
        page,
        "<!doctype html><html><head><style>:root{}\nhtml,body{margin:0;width:100%;height:100%;background:transparent}\np{}</style></head><body><p data-cw-text=\"clock.weekday\">Monday</p><p data-cw-text=\"clock.time\">09:05</p><p data-cw-text=\"clock.date\">March 7, 2025</p></body></html>"
    );
    let negative = cosmic_widgets::clock_document("<b data-cw-text=\"clock.date\">-</b>", "", "", "", 23, 59, "May", 31, -44);
    assert!(negative.contains(">May 31, -44<"));
}
