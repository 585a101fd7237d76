//! Building blocks of a note editor: a markdown widget builder, interactive
//! tag parsers and the decision logic of the editor's panes.

pub mod clock;
pub mod config;
pub mod core_notes;
pub mod elephant_notes;
pub mod launcher;
pub mod markdown_renderer;
pub mod storage;
pub mod text;
pub mod tui_editor;
pub mod ui_iced;

use text::{
    all_in, chars_of, has_prefix_at, leading_count, lemma_leading_count,
    lemma_leading_count_bound, scan_forward, CharClass,
};
use vstd::prelude::*;

verus! {

/// An interactive marker found in a note.
#[derive(Debug, PartialEq, Eq)]
pub enum InteractiveTag {
    /// An option with a key and the type of its value.
    Option { key: String, typ: String },
}

/// Whether `s` can be the key or the type of an option: it is not empty and
/// holds neither a slash nor an underscore.
pub open spec fn is_part(s: Seq<char>) -> bool {
    s.len() > 0 && all_in(s, CharClass::Name)
}

/// The marker of the option `key` of type `typ`: `/option_<key>_<typ>/`.
pub open spec fn option_tag(key: Seq<char>, typ: Seq<char>) -> Seq<char> {
    "/option_"@ + key + seq!['_'] + typ + seq!['/']
}

/// How an option marker reads from left to right.
proof fn lemma_option_tag(key: Seq<char>, typ: Seq<char>)
    requires
        is_part(key),
        is_part(typ),
    ensures
        ({
            let tag = option_tag(key, typ);
            let open = "/option_"@.len() as int;
            &&& "/option_"@.is_prefix_of(tag)
            &&& tag.len() == open + key.len() + typ.len() + 2
            &&& tag[tag.len() - 1] == '/'
            &&& tag[open + key.len()] == '_'
            &&& leading_count(tag.subrange(open, tag.len() - 1), CharClass::Name) == key.len()
            &&& leading_count(
                tag.subrange(open + key.len() + 1, tag.len() - 1),
                CharClass::Name,
            ) == typ.len()
        }),
{
    let tag = option_tag(key, typ);
    let open = "/option_"@.len() as int;
    assert(tag.subrange(0, open) =~= "/option_"@);
    let inner = tag.subrange(open, tag.len() - 1);
    assert forall|i: int| 0 <= i < key.len() implies CharClass::Name.has(#[trigger] inner[i]) by {
        assert(inner[i] == key[i]);
    }
    assert(inner[key.len() as int] == '_');
    lemma_leading_count(inner, CharClass::Name, key.len() as int);
    let last = tag.subrange(open + key.len() + 1, tag.len() - 1);
    assert(last =~= typ);
    lemma_leading_count(last, CharClass::Name, typ.len() as int);
}

/// A marker names one option: two markers that read the same have the same
/// key and the same type.
pub proof fn lemma_option_tag_unique(
    key: Seq<char>,
    typ: Seq<char>,
    other_key: Seq<char>,
    other_typ: Seq<char>,
)
    requires
        is_part(key),
        is_part(typ),
        is_part(other_key),
        is_part(other_typ),
        option_tag(key, typ) == option_tag(other_key, other_typ),
    ensures
        key == other_key,
        typ == other_typ,
{
    let tag = option_tag(key, typ);
    let open = "/option_"@.len() as int;
    lemma_option_tag(key, typ);
    lemma_option_tag(other_key, other_typ);
    assert(key =~= tag.subrange(open, open + key.len()));
    assert(other_key =~= tag.subrange(open, open + other_key.len()));
    assert(typ =~= tag.subrange(open + key.len() + 1, tag.len() - 1));
    assert(other_typ =~= tag.subrange(open + other_key.len() + 1, tag.len() - 1));
}

/// Parses an interactive marker of the form `/option_<key>_<type>/`, where
/// key and type are not empty and hold neither a slash nor an underscore.
/// Returns `None` for every other text.
pub fn parse_tag(tag: &str) -> (parsed: Option<InteractiveTag>)
    ensures
        match parsed {
            Some(InteractiveTag::Option { key, typ }) => is_part(key@) && is_part(typ@) && tag@
                == option_tag(key@, typ@),
            None => forall|key: Seq<char>, typ: Seq<char>|
                is_part(key) && is_part(typ) ==> tag@ != #[trigger] option_tag(key, typ),
        },
{
    let chars = chars_of(tag);
    let open = chars_of("/option_");
    let len = chars.len();
    proof {
        assert(chars@.subrange(0, len as int) =~= chars@);
        assert forall|key: Seq<char>, typ: Seq<char>| is_part(key) && is_part(typ) && tag@
            == #[trigger] option_tag(key, typ) implies {
            &&& open@.is_prefix_of(chars@)
            &&& len == open@.len() + key.len() + typ.len() + 2
            &&& chars@[len - 1] == '/'
            &&& chars@[(open@.len() + key.len()) as int] == '_'
            &&& leading_count(chars@.subrange(open@.len() as int, len - 1), CharClass::Name)
                == key.len()
            &&& leading_count(
                chars@.subrange((open@.len() + key.len() + 1) as int, len - 1),
                CharClass::Name,
            ) == typ.len()
        } by {
            lemma_option_tag(key, typ);
        }
    }
    if !has_prefix_at(&chars, 0, len, &open) {
        return None;
    }
    let first = open.len();
    if len == first || chars[len - 1] != '/' {
        return None;
    }
    let last = len - 1;
    let split = scan_forward(&chars, first, last, CharClass::Name);
    if split == first || split == last || chars[split] != '_' {
        return None;
    }
    let end = scan_forward(&chars, split + 1, last, CharClass::Name);
    if end == split + 1 || end != last {
        return None;
    }
    proof {
        let key = chars@.subrange(first as int, split as int);
        let typ = chars@.subrange(split + 1, last as int);
        lemma_leading_count_bound(chars@.subrange(first as int, last as int), CharClass::Name);
        lemma_leading_count_bound(chars@.subrange(split + 1, last as int), CharClass::Name);
        assert forall|i: int| 0 <= i < key.len() implies CharClass::Name.has(#[trigger] key[i]) by {
            assert(key[i] == chars@.subrange(first as int, last as int)[i]);
        }
        assert(chars@.subrange(0, first as int) == open@);
        assert(chars@ =~= option_tag(key, typ));
    }
    Some(
        InteractiveTag::Option {
            key: tag.substring_char(first, split).to_owned(),
            typ: tag.substring_char(split + 1, last).to_owned(),
        },
    )
}

} // verus!
