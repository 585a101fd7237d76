//! What a run of plain text stands for: a directive, inline math, or itself.

use super::widget::{Widget, WidgetModel};
use crate::text::{
    all_in, chars_of, has_prefix_at, is_space, leading_count, lemma_concat_parts,
    lemma_leading_count, lemma_leading_count_bound, lemma_prefix_of_same_length,
    lemma_run_then, lemma_split_run, lemma_trailing_count, lemma_trailing_count_bound,
    lemma_window_skip, lemma_window_take, scan_backward, scan_forward, skip_spaces,
    trailing_count, trim, trim_start, trim_window, trimmed, CharClass,
};
use vstd::prelude::*;

verus! {

/// What follows a directive's name: white space, an argument of one or more
/// characters that are neither white space nor `%`, optional white space, and
/// the closing marker `%}`. Gives the argument where `rest` has this form.
pub open spec fn argument_of(rest: Seq<char>) -> Option<Seq<char>> {
    let gap = leading_count(rest, CharClass::Space);
    let from = rest.skip(gap as int);
    let width = leading_count(from, CharClass::Word);
    if gap == 0 || width == 0 {
        None
    } else if trim_start(from.skip(width as int)) == "%}"@ {
        Some(from.take(width as int))
    } else {
        None
    }
}

/// The argument of the directive `name` that `text` consists of, if it does.
///
/// Once white space is taken from both ends, the text must be, in this order:
/// the opening marker `{%`, optional white space, `name`, and what
/// [`argument_of`] accepts.
pub open spec fn directive_argument(text: Seq<char>, name: Seq<char>) -> Option<Seq<char>> {
    let body = trim(text);
    if !"{%"@.is_prefix_of(body) {
        None
    } else {
        let after_open = trim_start(body.skip("{%"@.len() as int));
        if !name.is_prefix_of(after_open) {
            None
        } else {
            argument_of(after_open.skip(name.len() as int))
        }
    }
}

/// The source of the inline math that `text` consists of, if it does: the
/// text between one or two dollar signs at the start and as many at the end,
/// with at least one character between them.
pub open spec fn inline_math(text: Seq<char>) -> Option<Seq<char>> {
    let left = leading_count(text, CharClass::Dollar);
    let right = trailing_count(text, CharClass::Dollar);
    if left == right && 1 <= left <= 2 && 2 * left < text.len() {
        Some(text.subrange(left as int, text.len() - right))
    } else {
        None
    }
}

/// The widget that a run of plain text becomes. The detectors look at the
/// trimmed text, in a fixed order; text that none of them accepts is kept as
/// it was, untrimmed.
pub open spec fn text_widget(text: Seq<char>) -> WidgetModel {
    let inner = trim(text);
    match directive_argument(inner, "include-note"@) {
        Some(id) => WidgetModel::IncludeNote(id),
        None => match directive_argument(inner, "image"@) {
            Some(id) => WidgetModel::CustomImage(id),
            None => match inline_math(inner) {
                Some(source) => WidgetModel::Latex(source),
                None => WidgetModel::Text(text),
            },
        },
    }
}

/// What follows the name of a directive, written out: the argument with the
/// given white space before and after it, and the closing marker.
pub open spec fn argument_text(argument: Seq<char>, gap: Seq<char>, after: Seq<char>) -> Seq<
    char,
> {
    gap + (argument + (after + "%}"@))
}

/// A directive written out: the markers, the name and the argument, with the
/// given white space before the name, between name and argument, and after
/// the argument.
pub open spec fn directive_text(
    name: Seq<char>,
    argument: Seq<char>,
    before: Seq<char>,
    gap: Seq<char>,
    after: Seq<char>,
) -> Seq<char> {
    "{%"@ + (before + (name + argument_text(argument, gap, after)))
}

/// Whether `argument` can be the argument of a directive, between the white
/// space `gap` and `after`: it is not empty and holds neither white space nor
/// a percent sign, and it is set off from the name.
pub open spec fn fits(argument: Seq<char>, gap: Seq<char>, after: Seq<char>) -> bool {
    &&& argument.len() > 0
    &&& all_in(argument, CharClass::Word)
    &&& gap.len() > 0
    &&& all_in(gap, CharClass::Space)
    &&& all_in(after, CharClass::Space)
}

/// Whether `body` is the directive `name` with the argument `argument`: the
/// grammar of a directive, stated at once.
pub open spec fn is_directive(body: Seq<char>, name: Seq<char>, argument: Seq<char>) -> bool {
    exists|before: Seq<char>, gap: Seq<char>, after: Seq<char>|
        {
            &&& all_in(before, CharClass::Space)
            &&& fits(argument, gap, after)
            &&& body == #[trigger] directive_text(name, argument, before, gap, after)
        }
}

/// What [`argument_of`] accepts is white space, the argument, optional white
/// space and the closing marker, and nothing else.
pub proof fn lemma_argument_sound(rest: Seq<char>, argument: Seq<char>)
    requires
        argument_of(rest) == Some(argument),
    ensures
        exists|gap: Seq<char>, after: Seq<char>|
            fits(argument, gap, after) && rest == #[trigger] argument_text(argument, gap, after),
{
    let room = leading_count(rest, CharClass::Space) as int;
    let gap = rest.take(room);
    let from = rest.skip(room);
    let width = leading_count(from, CharClass::Word) as int;
    let tail = from.skip(width);
    let slack = leading_count(tail, CharClass::Space) as int;
    let after = tail.take(slack);
    lemma_split_run(rest, CharClass::Space);
    lemma_split_run(from, CharClass::Word);
    lemma_split_run(tail, CharClass::Space);
    assert(rest == argument_text(argument, gap, after));
}

/// White space, an argument, optional white space and the closing marker are
/// accepted by [`argument_of`], with that argument.
pub proof fn lemma_argument_complete(argument: Seq<char>, gap: Seq<char>, after: Seq<char>)
    requires
        fits(argument, gap, after),
    ensures
        argument_of(argument_text(argument, gap, after)) == Some(argument),
{
    reveal_strlit("%}");
    let close = "%}"@;
    let tail = after + close;
    let from = argument + tail;
    let rest = gap + from;
    assert(close[0] == '%');
    assert(from[0] == argument[0]);
    assert(CharClass::Word.has(argument[0]));
    lemma_run_then(gap, from, CharClass::Space);
    lemma_concat_parts(gap, from);
    if after.len() > 0 {
        assert(tail[0] == after[0]);
        assert(CharClass::Space.has(after[0]));
    } else {
        assert(tail[0] == close[0]);
    }
    lemma_run_then(argument, tail, CharClass::Word);
    lemma_concat_parts(argument, tail);
    lemma_run_then(after, close, CharClass::Space);
    lemma_concat_parts(after, close);
}

/// What [`directive_argument`] accepts is a directive: the trimmed text is
/// the two markers around the name and the argument, with white space only
/// where the grammar allows it, and nothing else.
pub proof fn lemma_directive_sound(text: Seq<char>, name: Seq<char>, argument: Seq<char>)
    requires
        directive_argument(text, name) == Some(argument),
    ensures
        is_directive(trim(text), name, argument),
{
    let body = trim(text);
    let opened = body.skip("{%"@.len() as int);
    let lead = leading_count(opened, CharClass::Space) as int;
    let before = opened.take(lead);
    let after_open = opened.skip(lead);
    let after_name = after_open.skip(name.len() as int);
    lemma_split_run(opened, CharClass::Space);
    lemma_argument_sound(after_name, argument);
    let (gap, after) = choose|gap: Seq<char>, after: Seq<char>|
        fits(argument, gap, after) && after_name == #[trigger] argument_text(argument, gap, after);
    assert(body =~= "{%"@ + opened);
    assert(after_open =~= name + after_name);
    assert(body == directive_text(name, argument, before, gap, after));
}

/// Every directive is accepted, with its argument: the other half of the
/// grammar. The name must start with a character that is not white space,
/// or the white space before it could not be told from the name.
pub proof fn lemma_directive_complete(text: Seq<char>, name: Seq<char>, argument: Seq<char>)
    requires
        name.len() > 0,
        !is_space(name[0]),
        is_directive(trim(text), name, argument),
    ensures
        directive_argument(text, name) == Some(argument),
{
    let body = trim(text);
    let (before, gap, after) = choose|before: Seq<char>, gap: Seq<char>, after: Seq<char>|
        {
            &&& all_in(before, CharClass::Space)
            &&& fits(argument, gap, after)
            &&& body == #[trigger] directive_text(name, argument, before, gap, after)
        };
    let after_name = argument_text(argument, gap, after);
    let after_open = name + after_name;
    let opened = before + after_open;
    lemma_concat_parts("{%"@, opened);
    assert(after_open[0] == name[0]);
    lemma_run_then(before, after_open, CharClass::Space);
    lemma_concat_parts(before, after_open);
    lemma_concat_parts(name, after_name);
    lemma_argument_complete(argument, gap, after);
}

/// A run of `n` dollar signs.
pub open spec fn dollars(n: nat) -> Seq<char> {
    Seq::new(n, |i: int| '$')
}

/// Whether `text` is `source` between `n` dollar signs on either side, where
/// `source` is not empty and neither starts nor ends with a dollar sign.
pub open spec fn is_math(text: Seq<char>, source: Seq<char>, n: nat) -> bool {
    &&& text == dollars(n) + source + dollars(n)
    &&& source.len() > 0
    &&& source[0] != '$'
    &&& source.last() != '$'
}

/// Inline math, stated at once: `text` is read as math with the source
/// `source` exactly when it is `source` between one or between two dollar
/// signs on either side.
pub proof fn lemma_inline_math(text: Seq<char>, source: Seq<char>)
    ensures
        inline_math(text) == Some(source) <==> (is_math(text, source, 1) || is_math(
            text,
            source,
            2,
        )),
{
    lemma_leading_count_bound(text, CharClass::Dollar);
    lemma_trailing_count_bound(text, CharClass::Dollar);
    if inline_math(text) == Some(source) {
        let n = leading_count(text, CharClass::Dollar);
        assert(text =~= dollars(n) + source + dollars(n));
        assert(source[0] == text[n as int]);
        assert(source.last() == text[text.len() - n - 1]);
        assert(is_math(text, source, n));
    }
    if is_math(text, source, 1) {
        lemma_math_delimiters(text, source, 1);
    }
    if is_math(text, source, 2) {
        lemma_math_delimiters(text, source, 2);
    }
}

/// The delimiters of math are the dollar signs at its ends, all of them.
proof fn lemma_math_delimiters(text: Seq<char>, source: Seq<char>, n: nat)
    requires
        is_math(text, source, n),
    ensures
        leading_count(text, CharClass::Dollar) == n,
        trailing_count(text, CharClass::Dollar) == n,
        text.subrange(n as int, text.len() - n) == source,
{
    assert(text[n as int] == source[0]);
    assert(text[text.len() - n - 1] == source.last());
    assert forall|i: int| 0 <= i < n implies CharClass::Dollar.has(#[trigger] text[i]) by {
        assert(text[i] == dollars(n)[i]);
    }
    assert forall|i: int| text.len() - n <= i < text.len() implies CharClass::Dollar.has(
        #[trigger] text[i],
    ) by {
        assert(text[i] == dollars(n)[i - n - source.len()]);
    }
    lemma_leading_count(text, CharClass::Dollar, n as int);
    lemma_trailing_count(text, CharClass::Dollar, n as int);
    assert(text.subrange(n as int, text.len() - n) =~= source);
}

/// The view of an optional string slice.
pub open spec fn optional_slice(slice: Option<&str>) -> Option<Seq<char>> {
    match slice {
        Some(s) => Some(s@),
        None => None,
    }
}

/// Finds the argument in what follows a directive's name: the window of
/// `chars` from `from` to `to`. Returns the bounds of the argument.
fn parse_argument(chars: &Vec<char>, from: usize, to: usize) -> (bounds: Option<(usize, usize)>)
    requires
        from <= to <= chars.len(),
    ensures
        match bounds {
            Some((start, end)) => from <= start <= end <= to && argument_of(
                chars@.subrange(from as int, to as int),
            ) == Some(chars@.subrange(start as int, end as int)),
            None => argument_of(chars@.subrange(from as int, to as int)) is None,
        },
{
    let close = chars_of("%}");
    let start = skip_spaces(chars, from, to);
    let end = scan_forward(chars, start, to, CharClass::Word);
    if start == from || end == start {
        return None;
    }
    let tail = skip_spaces(chars, end, to);
    let closed = has_prefix_at(chars, tail, to, &close) && to - tail == close.len();
    proof {
        lemma_window_skip(chars@, start as int, to as int, end - start);
        lemma_window_take(chars@, start as int, to as int, end - start);
        lemma_prefix_of_same_length(close@, chars@.subrange(tail as int, to as int));
    }
    if closed {
        Some((start, end))
    } else {
        None
    }
}

/// Reads `text` as the directive `name` and returns its argument.
pub fn parse_macro<'a>(text: &'a str, name: &str) -> (argument: Option<&'a str>)
    ensures
        optional_slice(argument) == directive_argument(text@, name@),
{
    let chars = chars_of(text);
    let wanted = chars_of(name);
    let open = chars_of("{%");
    let (lo, hi) = trim_window(&chars, 0, chars.len());
    proof {
        assert(chars@.subrange(0, chars@.len() as int) =~= chars@);
    }
    if !has_prefix_at(&chars, lo, hi, &open) {
        return None;
    }
    let after_open = skip_spaces(&chars, lo + open.len(), hi);
    proof {
        lemma_window_skip(chars@, lo as int, hi as int, open@.len() as int);
    }
    if !has_prefix_at(&chars, after_open, hi, &wanted) {
        return None;
    }
    proof {
        lemma_window_skip(chars@, after_open as int, hi as int, wanted@.len() as int);
    }
    match parse_argument(&chars, after_open + wanted.len(), hi) {
        Some((start, end)) => Some(text.substring_char(start, end)),
        None => None,
    }
}

/// Reads `text` as inline math and returns its source.
pub fn parse_latex_inline(text: &str) -> (source: Option<String>)
    ensures
        match source {
            Some(s) => inline_math(text@) == Some(s@),
            None => inline_math(text@) is None,
        },
{
    let chars = chars_of(text);
    let len = chars.len();
    proof {
        assert(chars@.subrange(0, len as int) =~= chars@);
    }
    let left = scan_forward(&chars, 0, len, CharClass::Dollar);
    let right = len - scan_backward(&chars, 0, len, CharClass::Dollar);
    if left == right && (left == 1 || left == 2) && left < len - left {
        Some(text.substring_char(left, len - right).to_owned())
    } else {
        None
    }
}

/// Builds the widget that a run of plain text becomes.
pub fn classify_text(text: &str) -> (widget: Widget)
    ensures
        widget@ == text_widget(text@),
{
    let inner = trimmed(text);
    if let Some(id) = parse_macro(inner, "include-note") {
        Widget::IncludeNote(id.to_owned())
    } else if let Some(id) = parse_macro(inner, "image") {
        Widget::CustomImage(id.to_owned())
    } else if let Some(source) = parse_latex_inline(inner) {
        Widget::Latex(source)
    } else {
        Widget::Text(text.to_owned())
    }
}

} // verus!
