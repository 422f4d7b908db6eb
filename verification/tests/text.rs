use cosmic_widgets::text::text_before;

#[test]
fn text_before_should_order_as_string_comparison_does() {
    let cases = [
        ("", ""),
        ("", "a"),
        ("a", ""),
        ("a", "b"),
        ("ab", "a"),
        ("a", "ab"),
        ("Z", "a"),
        ("é", "z"),
        ("z", "é"),
        ("日本", "日曜"),
        ("same", "same"),
    ];
    for (a, b) in cases {
        assert_eq!(text_before(a, b), a < b, "{a:?} < {b:?}");
    }
}
