use notes2::{parse_tag, InteractiveTag};

#[test]
fn parses_valid_option() {
    let tag = "/option_volume_int/";
    let parsed = parse_tag(tag);
    assert_eq!(
        parsed,
        Some(InteractiveTag::Option {
            key: "volume".to_string(),
            typ: "int".to_string(),
        })
    );
}

#[test]
fn rejects_missing_slashes() {
    assert_eq!(parse_tag("option_volume_int"), None);
}

#[test]
fn rejects_unexpected_format() {
    assert_eq!(parse_tag("/opt_volume_int/"), None);
}

#[test]
fn rejects_empty_parts() {
    assert_eq!(parse_tag("/option__int/"), None);
    assert_eq!(parse_tag("/option_volume_/"), None);
}

#[test]
fn rejects_slashes_and_underscores_inside_parts() {
    assert_eq!(parse_tag("/option_a/b_int/"), None);
    assert_eq!(parse_tag("/option_a_b/c/"), None);
    assert_eq!(parse_tag("/option_a_b_c/"), None);
    assert_eq!(parse_tag("/option_a_b/"), Some(InteractiveTag::Option {
        key: "a".to_string(),
        typ: "b".to_string(),
    }));
}

#[test]
fn rejects_text_around_the_marker() {
    assert_eq!(parse_tag("/option_a_b/ "), None);
    assert_eq!(parse_tag(" /option_a_b/"), None);
    assert_eq!(parse_tag("/option_a_b"), None);
    assert_eq!(parse_tag("/option_"), None);
    assert_eq!(parse_tag("/option_/"), None);
    assert_eq!(parse_tag("/option_a/"), None);
    assert_eq!(parse_tag(""), None);
    assert_eq!(parse_tag("/"), None);
}

#[test]
fn accepts_parts_beyond_ascii() {
    assert_eq!(
        parse_tag("/option_lautst\u{e4}rke_zahl/"),
        Some(InteractiveTag::Option {
            key: "lautst\u{e4}rke".to_string(),
            typ: "zahl".to_string(),
        })
    );
}
