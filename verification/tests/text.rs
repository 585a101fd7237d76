use notes2::text::{
    chars_of, has_prefix_at, is_whitespace, same_text, scan_backward, scan_forward, skip_spaces,
    starts_with, trim_window, trimmed, CharClass,
};

#[test]
fn whitespace_is_what_std_calls_whitespace() {
    for code in 0..=0x10ffffu32 {
        if let Some(c) = char::from_u32(code) {
            assert_eq!(is_whitespace(c), c.is_whitespace(), "U+{:04X}", code);
        }
    }
}

#[test]
fn trimming_agrees_with_std() {
    let samples = [
        "",
        " ",
        "a",
        "  a  ",
        "\t\n a b \r\n",
        "\u{a0}x\u{3000}",
        "\u{2028}\u{2029}",
        "x \u{e9} y ",
        "\u{200b}x\u{200b}",
    ];
    for sample in samples {
        assert_eq!(trimmed(sample), sample.trim(), "{:?}", sample);
    }
}

#[test]
fn characters_are_listed_in_order() {
    assert_eq!(chars_of("a\u{e9}\u{1f600}"), vec!['a', '\u{e9}', '\u{1f600}']);
    assert_eq!(chars_of(""), Vec::<char>::new());
}

#[test]
fn classes_hold_their_characters() {
    assert!(CharClass::Space.contains('\n'));
    assert!(!CharClass::Space.contains('x'));
    assert!(CharClass::Dollar.contains('$'));
    assert!(!CharClass::Dollar.contains('S'));
    assert!(CharClass::Word.contains('x'));
    assert!(!CharClass::Word.contains('%'));
    assert!(!CharClass::Word.contains(' '));
    assert!(CharClass::Name.contains('x'));
    assert!(!CharClass::Name.contains('/'));
    assert!(!CharClass::Name.contains('_'));
    assert!(CharClass::Except('q').contains('r'));
    assert!(!CharClass::Except('q').contains('q'));
}

#[test]
fn scans_stop_where_the_run_stops() {
    let chars = chars_of("  ab  ");
    assert_eq!(scan_forward(&chars, 0, 6, CharClass::Space), 2);
    assert_eq!(scan_forward(&chars, 0, 1, CharClass::Space), 1);
    assert_eq!(scan_forward(&chars, 2, 6, CharClass::Space), 2);
    assert_eq!(scan_forward(&chars, 2, 6, CharClass::Word), 4);
    assert_eq!(scan_forward(&chars, 6, 6, CharClass::Space), 6);
    assert_eq!(scan_backward(&chars, 0, 6, CharClass::Space), 4);
    assert_eq!(scan_backward(&chars, 5, 6, CharClass::Space), 5);
    assert_eq!(scan_backward(&chars, 0, 4, CharClass::Space), 4);
    assert_eq!(scan_backward(&chars, 0, 2, CharClass::Space), 0);
    assert_eq!(skip_spaces(&chars, 0, 6), 2);
    assert_eq!(trim_window(&chars, 0, 6), (2, 4));
    assert_eq!(trim_window(&chars, 0, 2), (2, 2));
    assert_eq!(trim_window(&chars, 1, 3), (2, 3));
}

#[test]
fn prefixes_are_found_inside_the_window_only() {
    let chars = chars_of("abcdef");
    assert!(has_prefix_at(&chars, 0, 6, &chars_of("abc")));
    assert!(has_prefix_at(&chars, 2, 6, &chars_of("cd")));
    assert!(has_prefix_at(&chars, 2, 6, &chars_of("")));
    assert!(!has_prefix_at(&chars, 2, 3, &chars_of("cd")));
    assert!(!has_prefix_at(&chars, 0, 6, &chars_of("abd")));
    assert!(starts_with("note://x", "note://"));
    assert!(!starts_with("note:/", "note://"));
    assert!(starts_with("x", ""));
    assert!(same_text("abc", "abc"));
    assert!(!same_text("abc", "abd"));
    assert!(!same_text("abc", "ab"));
    assert!(!same_text("ab", "abc"));
    assert!(same_text("", ""));
}

#[test]
fn trimming_twice_changes_nothing_more() {
    for sample in ["", "  a b  ", "\t\n", "x", " \u{3000}y\u{85} "] {
        let once = trimmed(sample);
        assert_eq!(trimmed(once), once);
        assert!(!once.starts_with(char::is_whitespace));
        assert!(!once.ends_with(char::is_whitespace));
    }
}
