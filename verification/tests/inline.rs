use notes2::markdown_renderer::inline::classify_text;
use notes2::markdown_renderer::{parse_latex_inline, parse_macro, Widget};

#[test]
fn directive_with_argument_is_read() {
    assert_eq!(parse_macro("{% include-note abc123 %}", "include-note"), Some("abc123"));
    assert_eq!(parse_macro("{% image pic.png %}", "image"), Some("pic.png"));
    assert_eq!(parse_macro("  {%image\tp%}\n", "image"), Some("p"));
    assert_eq!(parse_macro("{%   image   p   %}", "image"), Some("p"));
    assert_eq!(parse_macro("{% image {x} %}", "image"), Some("{x}"));
}

#[test]
fn directive_without_argument_is_not_read() {
    assert_eq!(parse_macro("{% include-note %}", "include-note"), None);
    assert_eq!(parse_macro("{% include-note%}", "include-note"), None);
    assert_eq!(parse_macro("{%%}", "include-note"), None);
    assert_eq!(parse_macro("", "include-note"), None);
}

#[test]
fn directive_must_be_set_off_from_its_name() {
    assert_eq!(parse_macro("{% imagep %}", "image"), None);
    assert_eq!(parse_macro("{% include-notes x %}", "include-note"), None);
}

#[test]
fn directive_takes_one_argument_only() {
    assert_eq!(parse_macro("{% image a b %}", "image"), None);
    assert_eq!(parse_macro("{% image a%b %}", "image"), None);
    assert_eq!(parse_macro("{% image a\u{a0}b %}", "image"), None);
}

#[test]
fn directive_must_be_the_whole_text() {
    assert_eq!(parse_macro("{% image a %} more", "image"), None);
    assert_eq!(parse_macro("more {% image a %}", "image"), None);
    assert_eq!(parse_macro("{% image a %}%}", "image"), None);
    assert_eq!(parse_macro("{% image a", "image"), None);
    assert_eq!(parse_macro("{ % image a %}", "image"), None);
    assert_eq!(parse_macro("{% image a % }", "image"), None);
}

#[test]
fn directive_name_is_matched_exactly() {
    assert_eq!(parse_macro("{% Image a %}", "image"), None);
    assert_eq!(parse_macro("{% image a %}", "include-note"), None);
    assert_eq!(parse_macro("{% a %}", ""), None);
    assert_eq!(parse_macro("{%  a %}", ""), None);
}

#[test]
fn math_between_matching_dollars_is_read() {
    assert_eq!(parse_latex_inline("$x^2$"), Some("x^2".to_string()));
    assert_eq!(parse_latex_inline("$$x^2$$"), Some("x^2".to_string()));
    assert_eq!(parse_latex_inline("$ $"), Some(" ".to_string()));
    assert_eq!(parse_latex_inline("$a$b$"), Some("a$b".to_string()));
    assert_eq!(parse_latex_inline("$\u{e9}$"), Some("\u{e9}".to_string()));
}

#[test]
fn math_with_other_delimiters_is_not_read() {
    assert_eq!(parse_latex_inline("$x^2$$"), None);
    assert_eq!(parse_latex_inline("$$x^2$"), None);
    assert_eq!(parse_latex_inline("$$$x$$$"), None);
    assert_eq!(parse_latex_inline("x"), None);
    assert_eq!(parse_latex_inline("$x"), None);
    assert_eq!(parse_latex_inline("x$"), None);
    assert_eq!(parse_latex_inline(" $x$"), None);
}

#[test]
fn math_needs_a_body() {
    assert_eq!(parse_latex_inline(""), None);
    assert_eq!(parse_latex_inline("$"), None);
    assert_eq!(parse_latex_inline("$$"), None);
    assert_eq!(parse_latex_inline("$$$"), None);
    assert_eq!(parse_latex_inline("$$$$"), None);
}

#[test]
fn detectors_run_in_order_on_the_trimmed_text() {
    assert_eq!(
        classify_text("  {% include-note n1 %} "),
        Widget::IncludeNote("n1".to_string())
    );
    assert_eq!(
        classify_text("{% image i1 %}"),
        Widget::CustomImage("i1".to_string())
    );
    assert_eq!(classify_text("\t$$e$$\n"), Widget::Latex("e".to_string()));
    assert_eq!(classify_text("  plain "), Widget::Text("  plain ".to_string()));
    assert_eq!(classify_text(""), Widget::Text(String::new()));
    assert_eq!(
        classify_text(" {% include-note %} "),
        Widget::Text(" {% include-note %} ".to_string())
    );
}
