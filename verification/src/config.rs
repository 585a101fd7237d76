//! Settings of the editor and the reload of the settings file.

pub mod watch;

use crate::text::{chars_of, find_from, find_text, has_prefix_at};
use vstd::prelude::*;

verus! {

/// Settings read from the front matter of the settings file.
#[derive(Debug, Clone, Copy, Default)]
pub struct Settings {
    /// Automatically fold the sidebar after this many milliseconds of
    /// inactivity. A value of `None` disables auto folding.
    pub sidebar_auto_fold_ms: Option<u64>,
}

/// The front matter of a settings file: what stands between the opening
/// marker `---` and the next such marker, or all that follows the opening
/// marker where no other comes. A file that does not begin with the marker
/// is front matter as a whole.
pub open spec fn front_matter(content: Seq<char>) -> Seq<char> {
    if "---"@.is_prefix_of(content) {
        let rest = content.skip("---"@.len() as int);
        match find_from(rest, "---"@, 0) {
            Some(end) => rest.take(end),
            None => rest,
        }
    } else {
        content
    }
}

/// Cuts the front matter out of the text of a settings file.
pub fn front_matter_of(content: &str) -> (yaml: &str)
    ensures
        yaml@ == front_matter(content@),
{
    let chars = chars_of(content);
    let marker = chars_of("---");
    let len = chars.len();
    proof {
        assert(chars@.subrange(0, len as int) =~= chars@);
    }
    if !has_prefix_at(&chars, 0, len, &marker) {
        return content;
    }
    let start = marker.len();
    let end = match find_text(&chars, start, &marker) {
        Some(at) => at,
        None => len,
    };
    proof {
        let rest = chars@.skip(start as int);
        lemma_find_shift(chars@, marker@, start as int, start as int);
        assert(rest.take(end - start) =~= chars@.subrange(start as int, end as int));
        assert(rest =~= chars@.subrange(start as int, len as int));
    }
    content.substring_char(start, end)
}

/// Searching a text from a position on is searching what is left of it from
/// its start, up to the shift.
proof fn lemma_find_shift(s: Seq<char>, needle: Seq<char>, shift: int, from: int)
    requires
        0 <= shift <= from <= s.len(),
    ensures
        find_from(s.skip(shift), needle, from - shift) == match find_from(s, needle, from) {
            Some(at) => Some(at - shift),
            None => None,
        },
    decreases s.len() - from,
{
    assert(s.skip(shift).skip(from - shift) =~= s.skip(from));
    if !needle.is_prefix_of(s.skip(from)) && from < s.len() {
        lemma_find_shift(s, needle, shift, from + 1);
    }
}

/// Does nothing; keeps the module's interface stable for its users.
pub fn placeholder() {
}

} // verus!
