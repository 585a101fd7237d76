use notes2::elephant_notes::config::{Settings, Theme};
use notes2::elephant_notes::interactive_widgets::{parse_tag, Widget};
use notes2::elephant_notes::markdown_renderer::{render_html, viewport};
use notes2::markdown_renderer::ViewportError;

#[test]
fn toggle_marker_is_parsed() {
    assert_eq!(
        parse_tag("/option_dark-mode_toggle/"),
        Some(Widget::Toggle {
            key: "dark-mode".to_string()
        })
    );
    assert_eq!(
        parse_tag("/option_a/b_toggle/"),
        Some(Widget::Toggle {
            key: "a/b".to_string()
        })
    );
}

#[test]
fn other_markers_are_rejected() {
    assert_eq!(parse_tag("/option__toggle/"), None);
    assert_eq!(parse_tag("/option_key_int/"), None);
    assert_eq!(parse_tag("/option_key_toggle"), None);
    assert_eq!(parse_tag("option_key_toggle/"), None);
    assert_eq!(parse_tag("/option_key/"), None);
    assert_eq!(parse_tag("/option_a_b_toggle/"), None);
    assert_eq!(parse_tag("/option_key_toggle/x"), None);
    assert_eq!(parse_tag("/option_key_Toggle/"), None);
    assert_eq!(parse_tag("/option_"), None);
    assert_eq!(parse_tag("/option_/"), None);
    assert_eq!(parse_tag(""), None);
}

#[test]
fn markdown_is_rendered_as_html() {
    assert_eq!(render_html("# hello\n"), "<h1>hello</h1>\n");
    assert_eq!(render_html("*a* ~~b~~"), "<p><em>a</em> <del>b</del></p>\n");
    assert_eq!(render_html(""), "");
}

#[test]
fn html_viewport_reads_the_byte_range() {
    let document = b"# Title\ntext\n";
    assert_eq!(
        viewport(document, 0, 9),
        Ok("<h1>Title</h1>\n<p>t</p>\n".to_string())
    );
    assert_eq!(viewport(document, 8, 12), Ok("<p>text</p>\n".to_string()));
    assert_eq!(viewport(document, 3, 3), Ok(String::new()));
    assert_eq!(viewport(document, 3, 2), Err(ViewportError::InvalidRange));
    assert_eq!(viewport(document, 14, 15), Err(ViewportError::SeekPastEnd));
    assert_eq!(viewport(document, 0, 14), Err(ViewportError::ShortRead));
    assert_eq!(
        viewport("caf\u{e9}".as_bytes(), 0, 4),
        Ok("<p>caf\u{fffd}</p>\n".to_string())
    );
}

#[test]
fn settings_hold_fold_time_and_theme() {
    let settings = Settings {
        auto_fold_ms: 250,
        theme: Theme::Dark,
    };
    assert_eq!(settings.auto_fold_ms, 250);
    assert_eq!(settings.theme, Theme::Dark);
    assert_ne!(settings.theme, Theme::Light);
}
