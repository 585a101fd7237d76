//! The preview pane of the terminal editor.

use crate::text::{
    chars_of, leading_count, lemma_window_skip, scan_forward, skip_spaces, trim_start, CharClass,
};
use vstd::prelude::*;

verus! {

/// The heading that a line of markdown holds: its level, the number of `#`
/// signs it starts with, and its text. A line is a heading where, after its
/// leading white space, one or more `#` signs are followed by a space; the
/// text is what follows that space, without leading white space.
pub open spec fn heading_of(line: Seq<char>) -> Option<(nat, Seq<char>)> {
    let body = trim_start(line);
    let level = leading_count(body, CharClass::Only('#'));
    if level > 0 && level < body.len() && body[level as int] == ' ' {
        Some((level, trim_start(body.skip(level as int + 1))))
    } else {
        None
    }
}

/// Reads a line as a heading and returns its level and its text, or `None`
/// for a line that is to be shown as it stands.
pub fn read_heading(line: &str) -> (heading: Option<(usize, &str)>)
    ensures
        match heading {
            Some((level, text)) => heading_of(line@) == Some((level as nat, text@)),
            None => heading_of(line@) is None,
        },
{
    let chars = chars_of(line);
    let len = chars.len();
    proof {
        assert(chars@.subrange(0, len as int) =~= chars@);
    }
    let start = skip_spaces(&chars, 0, len);
    let marks = scan_forward(&chars, start, len, CharClass::Only('#'));
    proof {
        if marks < len {
            assert(chars@.subrange(start as int, len as int)[marks - start] == chars@[marks as int]);
        }
    }
    if marks > start && marks < len && chars[marks] == ' ' {
        let text = skip_spaces(&chars, marks + 1, len);
        proof {
            lemma_window_skip(chars@, start as int, len as int, marks + 1 - start);
        }
        Some((marks - start, line.substring_char(text, len)))
    } else {
        None
    }
}

} // verus!
