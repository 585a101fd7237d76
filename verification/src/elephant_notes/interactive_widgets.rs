//! Interactive markup parsing for widgets.

use crate::text::{
    all_in, chars_of, has_prefix_at, leading_count, lemma_leading_count, lemma_leading_count_bound,
    lemma_prefix_of_same_length, scan_forward, CharClass,
};
use vstd::prelude::*;

verus! {

/// Simple widget types produced by the parser.
#[derive(Debug, PartialEq, Eq)]
pub enum Widget {
    /// A switch that sets the option `key`.
    Toggle { key: String },
}

/// Whether `s` can be the key of a toggle: it is not empty and holds no
/// underscore.
pub open spec fn is_key(s: Seq<char>) -> bool {
    s.len() > 0 && all_in(s, CharClass::Except('_'))
}

/// The marker of the toggle `key`: `/option_<key>_toggle/`.
pub open spec fn toggle_tag(key: Seq<char>) -> Seq<char> {
    "/option_"@ + key + seq!['_'] + "toggle"@ + seq!['/']
}

/// How a toggle marker reads from left to right.
proof fn lemma_toggle_tag(key: Seq<char>)
    requires
        is_key(key),
    ensures
        ({
            let tag = toggle_tag(key);
            let open = "/option_"@.len() as int;
            &&& "/option_"@.is_prefix_of(tag)
            &&& tag.len() == open + key.len() + "toggle"@.len() + 2
            &&& tag[tag.len() - 1] == '/'
            &&& leading_count(tag.subrange(open, tag.len() - 1), CharClass::Except('_'))
                == key.len()
            &&& tag.subrange(open + key.len() + 1, tag.len() - 1) == "toggle"@
        }),
{
    let tag = toggle_tag(key);
    let open = "/option_"@.len() as int;
    assert(tag.subrange(0, open) =~= "/option_"@);
    let inner = tag.subrange(open, tag.len() - 1);
    assert forall|i: int| 0 <= i < key.len() implies CharClass::Except('_').has(
        #[trigger] inner[i],
    ) by {
        assert(inner[i] == key[i]);
    }
    assert(inner[key.len() as int] == '_');
    lemma_leading_count(inner, CharClass::Except('_'), key.len() as int);
    assert(tag.subrange(open + key.len() + 1, tag.len() - 1) =~= "toggle"@);
}

/// A marker names one toggle: two markers that read the same have the same
/// key.
pub proof fn lemma_toggle_tag_unique(key: Seq<char>, other_key: Seq<char>)
    requires
        is_key(key),
        is_key(other_key),
        toggle_tag(key) == toggle_tag(other_key),
    ensures
        key == other_key,
{
    let tag = toggle_tag(key);
    let open = "/option_"@.len() as int;
    lemma_toggle_tag(key);
    lemma_toggle_tag(other_key);
    assert(key =~= tag.subrange(open, open + key.len()));
    assert(other_key =~= tag.subrange(open, open + other_key.len()));
}

/// Parses a marker of the form `/option_<key>_toggle/`, where the key is not
/// empty and holds no underscore. Returns `None` for every other text.
pub fn parse_tag(input: &str) -> (parsed: Option<Widget>)
    ensures
        match parsed {
            Some(Widget::Toggle { key }) => is_key(key@) && input@ == toggle_tag(key@),
            None => forall|key: Seq<char>| is_key(key) ==> input@ != #[trigger] toggle_tag(key),
        },
{
    let chars = chars_of(input);
    let open = chars_of("/option_");
    let kind = chars_of("toggle");
    let len = chars.len();
    proof {
        assert(chars@.subrange(0, len as int) =~= chars@);
        assert forall|key: Seq<char>| is_key(key) && input@ == #[trigger] toggle_tag(key) implies {
            &&& open@.is_prefix_of(chars@)
            &&& len == open@.len() + key.len() + kind@.len() + 2
            &&& chars@[len - 1] == '/'
            &&& leading_count(
                chars@.subrange(open@.len() as int, len - 1),
                CharClass::Except('_'),
            ) == key.len()
            &&& chars@.subrange((open@.len() + key.len() + 1) as int, len - 1) == kind@
        } by {
            lemma_toggle_tag(key);
        }
    }
    if !has_prefix_at(&chars, 0, len, &open) {
        return None;
    }
    let first = open.len();
    if len == first || chars[len - 1] != '/' {
        return None;
    }
    let last = len - 1;
    let split = scan_forward(&chars, first, last, CharClass::Except('_'));
    if split == first || split == last {
        return None;
    }
    let is_toggle = has_prefix_at(&chars, split + 1, last, &kind) && last - (split + 1)
        == kind.len();
    proof {
        lemma_prefix_of_same_length(kind@, chars@.subrange(split + 1, last as int));
    }
    if !is_toggle {
        return None;
    }
    proof {
        let key = chars@.subrange(first as int, split as int);
        lemma_leading_count_bound(
            chars@.subrange(first as int, last as int),
            CharClass::Except('_'),
        );
        assert forall|i: int| 0 <= i < key.len() implies CharClass::Except('_').has(
            #[trigger] key[i],
        ) by {
            assert(key[i] == chars@.subrange(first as int, last as int)[i]);
        }
        assert(chars@.subrange(0, first as int) == open@);
        assert(chars@[split as int] == chars@.subrange(first as int, last as int)[split - first]);
        assert(chars@ =~= toggle_tag(key));
    }
    Some(Widget::Toggle { key: input.substring_char(first, split).to_owned() })
}

} // verus!
