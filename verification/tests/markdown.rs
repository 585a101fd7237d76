use notes2::markdown_renderer::tokenizer::tokenize;
use notes2::markdown_renderer::viewport::{render_bytes, viewport_length};
use notes2::markdown_renderer::{
    render_markdown, render_viewport, Construct, Token, ViewportError, Widget,
};

fn text(s: &str) -> Widget {
    Widget::Text(s.to_string())
}

#[test]
fn heading_becomes_header() {
    assert_eq!(
        render_markdown("# Title\n"),
        vec![Widget::Header(1, "Title".to_string())]
    );
}

#[test]
fn heading_levels_are_kept() {
    assert_eq!(
        render_markdown("### Three\n\n###### Six\n"),
        vec![
            Widget::Header(3, "Three".to_string()),
            Widget::Header(6, "Six".to_string())
        ]
    );
}

#[test]
fn strong_becomes_bold() {
    assert_eq!(
        render_markdown("**bold**"),
        vec![Widget::Bold("bold".to_string())]
    );
}

#[test]
fn emphasis_becomes_italic() {
    assert_eq!(
        render_markdown("*slanted*"),
        vec![Widget::Italic("slanted".to_string())]
    );
}

#[test]
fn mermaid_fence_becomes_mermaid() {
    assert_eq!(
        render_markdown("```mermaid\ngraph;\n```\n"),
        vec![Widget::Mermaid("graph;\n".to_string())]
    );
}

#[test]
fn math_fence_becomes_latex() {
    assert_eq!(
        render_markdown("```math\nx\n```\n"),
        vec![Widget::Latex("x\n".to_string())]
    );
}

#[test]
fn other_fence_becomes_code_block() {
    assert_eq!(
        render_markdown("```python\nprint(1)\n```\n"),
        vec![Widget::CodeBlock {
            lang: Some("python".to_string()),
            code: "print(1)\n".to_string()
        }]
    );
}

#[test]
fn indented_code_has_no_language() {
    assert_eq!(
        render_markdown("    let x = 1;\n"),
        vec![Widget::CodeBlock {
            lang: None,
            code: "let x = 1;\n".to_string()
        }]
    );
}

#[test]
fn include_note_directive() {
    assert_eq!(
        render_markdown("{% include-note abc123 %}"),
        vec![Widget::IncludeNote("abc123".to_string())]
    );
    assert_eq!(
        render_markdown("{% include-note %}"),
        vec![text("{% include-note %}")]
    );
}

#[test]
fn image_directive() {
    assert_eq!(
        render_markdown("{% image diagram7 %}"),
        vec![Widget::CustomImage("diagram7".to_string())]
    );
}

#[test]
fn inline_math() {
    assert_eq!(
        render_markdown("$x^2$"),
        vec![Widget::Latex("x^2".to_string())]
    );
    assert_eq!(render_markdown("$x^2$$"), vec![text("$x^2$$")]);
}

#[test]
fn note_link_becomes_note_link() {
    assert_eq!(
        render_markdown("[label](note://xyz)"),
        vec![Widget::NoteLink("note://xyz".to_string())]
    );
}

#[test]
fn other_link_leaves_only_its_text() {
    assert_eq!(render_markdown("[label](https://x)"), vec![text("label")]);
}

#[test]
fn image_keeps_title_and_target() {
    assert_eq!(
        render_markdown("![alt text](pic.png \"The title\")"),
        vec![
            Widget::Image {
                alt: "The title".to_string(),
                url: "pic.png".to_string()
            },
            text("alt text")
        ]
    );
}

#[test]
fn table_holds_its_cells() {
    assert_eq!(
        render_markdown("| a | b |\n|---|---|\n| c | d |\n"),
        vec![Widget::Table(vec![
            text("a"),
            text("b"),
            text("c"),
            text("d")
        ])]
    );
}

#[test]
fn unknown_html_is_dropped() {
    assert_eq!(render_markdown("<div>\n"), vec![]);
}

#[test]
fn rendering_is_repeatable() {
    let source = "# A\n\n**b** and $c$\n\n| x |\n|---|\n| y |\n";
    assert_eq!(render_markdown(source), render_markdown(source));
    let bytes = source.as_bytes();
    assert_eq!(
        render_viewport(bytes, 2, 20),
        render_viewport(bytes, 2, 20)
    );
}

#[test]
fn viewport_of_first_nine_bytes() {
    let document = b"# Title\ntext\n";
    let widgets = render_viewport(document, 0, 9).unwrap();
    assert!(!widgets.is_empty());
    let decoded = String::from_utf8_lossy(&document[0..9]).into_owned();
    assert_eq!(widgets, render_markdown(&decoded));
    assert_eq!(
        widgets,
        vec![Widget::Header(1, "Title".to_string()), text("t")]
    );
}

#[test]
fn viewport_that_ends_before_it_starts_fails() {
    let document = b"# Title\ntext\n";
    assert_eq!(
        render_viewport(document, 5, 2),
        Err(ViewportError::InvalidRange)
    );
    assert_eq!(
        render_viewport(document, 100, 2),
        Err(ViewportError::InvalidRange)
    );
    assert_eq!(viewport_length(13, 5, 2), Err(ViewportError::InvalidRange));
}

#[test]
fn viewport_outside_the_document_fails() {
    let document = b"# Title\ntext\n";
    assert_eq!(
        render_viewport(document, 14, 14),
        Err(ViewportError::SeekPastEnd)
    );
    assert_eq!(
        render_viewport(document, 14, 20),
        Err(ViewportError::SeekPastEnd)
    );
    assert_eq!(
        render_viewport(document, 4, 14),
        Err(ViewportError::ShortRead)
    );
    assert_eq!(viewport_length(13, 14, 14), Err(ViewportError::SeekPastEnd));
    assert_eq!(viewport_length(13, 4, 14), Err(ViewportError::ShortRead));
}

#[test]
fn viewport_inside_the_document_succeeds() {
    let document = b"# Title\ntext\n";
    assert_eq!(render_viewport(document, 13, 13), Ok(vec![]));
    assert_eq!(render_viewport(document, 0, 0), Ok(vec![]));
    assert_eq!(
        render_viewport(document, 8, 12),
        Ok(vec![text("text")])
    );
    assert_eq!(viewport_length(13, 8, 12), Ok(4));
    assert_eq!(viewport_length(13, 0, 13), Ok(13));
    assert_eq!(viewport_length(u64::MAX, 0, u64::MAX), Ok(u64::MAX));
}

#[test]
fn viewport_that_splits_a_character_is_decoded_with_replacement() {
    let document = "caf\u{e9}".as_bytes();
    assert_eq!(document.len(), 5);
    assert_eq!(
        render_viewport(document, 0, 4),
        Ok(vec![text("caf\u{fffd}")])
    );
    assert_eq!(render_bytes(&[0xff, b'a']), vec![text("\u{fffd}a")]);
    assert_eq!(render_bytes("caf\u{e9}".as_bytes()), vec![text("caf\u{e9}")]);
}

#[test]
fn tokenizer_yields_structural_events() {
    assert_eq!(
        tokenize("# Title\n"),
        vec![
            Token::Start(Construct::Heading(1, None, vec![])),
            Token::Text("Title".to_string()),
            Token::End(Construct::Heading(1, None, vec![])),
        ]
    );
    assert_eq!(
        tokenize("**b**"),
        vec![
            Token::Start(Construct::Other),
            Token::Start(Construct::Strong),
            Token::Text("b".to_string()),
            Token::End(Construct::Strong),
            Token::End(Construct::Other),
        ]
    );
}

#[test]
fn tokenizer_keeps_heading_attributes() {
    assert_eq!(
        tokenize("## Title {#top .wide .dark}\n"),
        vec![
            Token::Start(Construct::Heading(
                2,
                Some("top".to_string()),
                vec!["wide".to_string(), "dark".to_string()]
            )),
            Token::Text("Title".to_string()),
            Token::End(Construct::Heading(
                2,
                Some("top".to_string()),
                vec!["wide".to_string(), "dark".to_string()]
            )),
        ]
    );
}

#[test]
fn tokenizer_tells_fences_links_and_images_apart() {
    assert_eq!(
        tokenize("```rust\nx\n```\n"),
        vec![
            Token::Start(Construct::CodeBlock(Some("rust".to_string()))),
            Token::Text("x\n".to_string()),
            Token::End(Construct::CodeBlock(Some("rust".to_string()))),
        ]
    );
    assert_eq!(
        tokenize("[a](u)"),
        vec![
            Token::Start(Construct::Other),
            Token::Start(Construct::Link("u".to_string())),
            Token::Text("a".to_string()),
            Token::End(Construct::Link("u".to_string())),
            Token::End(Construct::Other),
        ]
    );
    assert_eq!(
        tokenize("![a](u \"t\")"),
        vec![
            Token::Start(Construct::Other),
            Token::Start(Construct::Image("u".to_string(), "t".to_string())),
            Token::Text("a".to_string()),
            Token::End(Construct::Image("u".to_string(), "t".to_string())),
            Token::End(Construct::Other),
        ]
    );
}

#[test]
fn details_block_holds_each_token_on_its_own() {
    assert_eq!(
        render_markdown(
            "<details>\n<summary>S</summary>\n\ninner *text*\n\n</details>\n\nafter\n"
        ),
        vec![
            Widget::Details(vec![
                text("inner "),
                Widget::Italic(String::new()),
                text("text")
            ]),
            text("after")
        ]
    );
}

#[test]
fn heading_with_attributes_ends_at_its_own_end() {
    assert_eq!(
        render_markdown("# T {#a}\n\npara\n\n# U\n\nmore\n"),
        vec![
            Widget::Header(1, "T".to_string()),
            text("para"),
            Widget::Header(1, "U".to_string()),
            text("more")
        ]
    );
    assert_eq!(
        render_markdown("## T {#a .wide}\n\npara\n"),
        vec![Widget::Header(2, "T".to_string()), text("para")]
    );
}

#[test]
fn directive_inside_a_sentence_stays_text() {
    assert_eq!(
        render_markdown("see {% include-note abc %} here"),
        vec![text("see {% include-note abc %} here")]
    );
}

#[test]
fn test_viewport() {
    let document = "# Title\ntext\n".as_bytes();
    let res = render_viewport(document, 0, 9).unwrap();
    assert!(!res.is_empty());
}
