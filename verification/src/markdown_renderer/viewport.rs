//! Rendering a byte range of a document.
//!
//! A viewport is the half-open byte range from `start` to `end`. Its
//! boundaries are byte offsets and may fall inside a multi-byte character, so
//! the bytes are decoded with replacement and decoding never fails.

use super::builder::build;
use super::tokenizer::markdown_tokens;
use super::widget::{widget_models, Widget, WidgetModel};
use vstd::prelude::*;
use vstd::slice::slice_subrange;
use vstd::utf8::{decode_utf8, valid_utf8};

verus! {

/// Why a viewport cannot be read.
#[derive(Clone, Copy, Debug, PartialEq, Eq, Structural)]
pub enum ViewportError {
    /// The range ends before it starts.
    InvalidRange,
    /// The range starts behind the end of the document.
    SeekPastEnd,
    /// The document ends before the range does.
    ShortRead,
}

/// The reason why the range from `start` to `end` cannot be read from a
/// document of `len` bytes, or `None` where it can.
pub open spec fn viewport_fault(len: int, start: int, end: int) -> Option<ViewportError> {
    if end < start {
        Some(ViewportError::InvalidRange)
    } else if start > len {
        Some(ViewportError::SeekPastEnd)
    } else if end > len {
        Some(ViewportError::ShortRead)
    } else {
        None
    }
}

/// The text that lossy UTF-8 decoding makes of `bytes`.
pub uninterp spec fn lossy_text(bytes: Seq<u8>) -> Seq<char>;

/// The widgets of the viewport from `start` to `end` of `document`.
pub open spec fn viewport_widgets(document: Seq<u8>, start: int, end: int) -> Seq<WidgetModel> {
    build(markdown_tokens(lossy_text(document.subrange(start, end))))
}

/// Decodes with `String::from_utf8_lossy`. The contract names the outcome, a
/// function of the bytes, and adds what the documentation says of valid
/// UTF-8: it is decoded as it stands.
#[verifier::external_body]
pub(crate) fn decode_lossy(bytes: &[u8]) -> (text: String)
    ensures
        text@ == lossy_text(bytes@),
        valid_utf8(bytes@) ==> text@ == decode_utf8(bytes@),
{
    String::from_utf8_lossy(bytes).into_owned()
}

/// Checks the range from `start` to `end` against a document of `len` bytes
/// and returns the number of bytes in it.
pub fn viewport_length(len: u64, start: u64, end: u64) -> (count: Result<u64, ViewportError>)
    ensures
        match count {
            Ok(n) => viewport_fault(len as int, start as int, end as int) is None && n == end
                - start,
            Err(fault) => viewport_fault(len as int, start as int, end as int) == Some(fault),
        },
        start <= end <= len ==> count is Ok,
        end < start ==> count == Err::<u64, ViewportError>(ViewportError::InvalidRange),
{
    if end < start {
        Err(ViewportError::InvalidRange)
    } else if start > len {
        Err(ViewportError::SeekPastEnd)
    } else if end > len {
        Err(ViewportError::ShortRead)
    } else {
        Ok(end - start)
    }
}

/// Renders the bytes of a viewport: decodes them with replacement and builds
/// the widgets of the text.
pub fn render_bytes(bytes: &[u8]) -> (widgets: Vec<Widget>)
    ensures
        widget_models(widgets@) == build(markdown_tokens(lossy_text(bytes@))),
{
    let text = decode_lossy(bytes);
    super::render_markdown(text.as_str())
}

/// Renders the viewport from `start` to `end` of a document held in memory.
/// Fails exactly where the range is not inside the document; what is rendered
/// depends on nothing but the bytes in the range.
pub fn render_viewport(document: &[u8], start: u64, end: u64) -> (rendered: Result<
    Vec<Widget>,
    ViewportError,
>)
    ensures
        match rendered {
            Ok(widgets) => viewport_fault(document@.len() as int, start as int, end as int)
                is None && widget_models(widgets@) == viewport_widgets(
                document@,
                start as int,
                end as int,
            ),
            Err(fault) => viewport_fault(document@.len() as int, start as int, end as int)
                == Some(fault),
        },
        start <= end <= document@.len() ==> rendered is Ok,
        end < start ==> rendered == Err::<Vec<Widget>, ViewportError>(
            ViewportError::InvalidRange,
        ),
{
    let len = document.len();
    if end < start {
        Err(ViewportError::InvalidRange)
    } else if start > len as u64 {
        Err(ViewportError::SeekPastEnd)
    } else if end > len as u64 {
        Err(ViewportError::ShortRead)
    } else {
        Ok(render_bytes(slice_subrange(document, start as usize, end as usize)))
    }
}

} // verus!
