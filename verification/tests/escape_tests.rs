use activity_feed::markdown_link_title_escape;
use activity_feed::text::decimal_string;

#[test]
fn escapes_quote_and_parens() {
    assert_eq!(
        markdown_link_title_escape("a\"b(c)d"),
        "a&#34;b&#40;c&#41;d"
    );
}

#[test]
fn escapes_every_occurrence_in_any_order() {
    assert_eq!(markdown_link_title_escape(")(\""), "&#41;&#40;&#34;");
    assert_eq!(markdown_link_title_escape("((\"\"))"), "&#40;&#40;&#34;&#34;&#41;&#41;");
}

#[test]
fn escaped_output_has_no_target_characters() {
    let out = markdown_link_title_escape("x(y)\"z");
    assert!(!out.contains('"'));
    assert!(!out.contains('('));
    assert!(!out.contains(')'));
}

#[test]
fn leaves_plain_text_alone() {
    assert_eq!(markdown_link_title_escape("hello world"), "hello world");
    assert_eq!(markdown_link_title_escape(""), "");
}

#[test]
fn renders_decimals() {
    assert_eq!(decimal_string(0), "0");
    assert_eq!(decimal_string(7), "7");
    assert_eq!(decimal_string(12345), "12345");
    assert_eq!(decimal_string(-5), "-5");
    assert_eq!(decimal_string(-9223372036854775808), "-9223372036854775808");
}
