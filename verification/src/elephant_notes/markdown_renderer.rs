//! Markdown rendering to HTML.

use crate::markdown_renderer::viewport::{lossy_text, viewport_fault, ViewportError};
use pulldown_cmark::{Options, Parser};
use vstd::prelude::*;
use vstd::slice::slice_subrange;

verus! {

/// The HTML that the renderer writes for a markdown text.
pub uninterp spec fn markdown_html(text: Seq<char>) -> Seq<char>;

/// Runs `pulldown_cmark::html::push_html` over the events of `text`, parsed
/// with every extension switched on. The contract only gives the outcome a
/// name: the HTML is a function of the text.
#[verifier::external_body]
fn push_html(text: &str) -> (html: String)
    ensures
        html@ == markdown_html(text@),
{
    let mut html = String::new();
    pulldown_cmark::html::push_html(&mut html, Parser::new_ext(text, Options::all()));
    html
}

/// Renders markdown text as HTML.
pub fn render_html(text: &str) -> (html: String)
    ensures
        html@ == markdown_html(text@),
{
    push_html(text)
}

/// Renders the bytes from `start` to `end` of a document held in memory as
/// HTML. Fails exactly where the range is not inside the document.
pub fn viewport(document: &[u8], start: u64, end: u64) -> (rendered: Result<String, ViewportError>)
    ensures
        match rendered {
            Ok(html) => viewport_fault(document@.len() as int, start as int, end as int)
                is None && html@ == markdown_html(
                lossy_text(document@.subrange(start as int, end as int)),
            ),
            Err(fault) => viewport_fault(document@.len() as int, start as int, end as int)
                == Some(fault),
        },
{
    let len = document.len();
    if end < start {
        Err(ViewportError::InvalidRange)
    } else if start > len as u64 {
        Err(ViewportError::SeekPastEnd)
    } else if end > len as u64 {
        Err(ViewportError::ShortRead)
    } else {
        let text = crate::markdown_renderer::viewport::decode_lossy(
            slice_subrange(document, start as usize, end as usize),
        );
        Ok(render_html(text.as_str()))
    }
}

} // verus!
