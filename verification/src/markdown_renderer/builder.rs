//! The widget builder: from a sequence of tokens to a sequence of widgets.
//!
//! The builder walks the tokens once. A token that opens a construct with a
//! rule consumes the tokens up to the one that ends it, and becomes one
//! widget; any other token is passed over.

use super::inline::{classify_text, text_widget};
use super::token::{
    copy_texts, optional_text, token_models, valid_token, valid_tokens, Construct,
    ConstructModel, Token, TokenModel,
};
use super::widget::{
    lemma_widget_models_push, valid_widget, valid_widgets, widget_models, Widget, WidgetModel,
};
use crate::text::{same_text, starts_with, trim, trimmed};
use vstd::prelude::*;

verus! {

/// What brings the collection that a token started to an end.
pub ghost enum Stop {
    /// The token that closes exactly this construct.
    Close(ConstructModel),
    /// The end of a table.
    TableEnd,
    /// The end of a link.
    LinkEnd,
    /// Raw HTML that closes a collapsible section.
    DetailsClose,
}

/// Whether raw HTML opens a collapsible section.
pub open spec fn opens_details(html: Seq<char>) -> bool {
    "<details"@.is_prefix_of(trim(html))
}

/// Whether raw HTML closes a collapsible section.
pub open spec fn closes_details(html: Seq<char>) -> bool {
    "</details"@.is_prefix_of(trim(html))
}

/// Whether a link target points to another note.
pub open spec fn is_note_link(url: Seq<char>) -> bool {
    "note://"@.is_prefix_of(url)
}

impl Stop {
    /// Whether `token` is the one that the collection stops at.
    pub open spec fn at(self, token: TokenModel) -> bool {
        match self {
            Stop::Close(construct) => token == TokenModel::End(construct),
            Stop::TableEnd => token == TokenModel::End(ConstructModel::Table),
            Stop::LinkEnd => token matches TokenModel::End(ConstructModel::Link(_)),
            Stop::DetailsClose => token matches TokenModel::Html(html) && closes_details(html),
        }
    }
}

/// The first position at or after `from` whose token `stop` accepts, or the
/// length of `tokens` where there is none.
pub open spec fn stop_index(tokens: Seq<TokenModel>, from: int, stop: Stop) -> int
    decreases tokens.len() - from,
{
    if from >= tokens.len() {
        tokens.len() as int
    } else if stop.at(tokens[from]) {
        from
    } else {
        stop_index(tokens, from + 1, stop)
    }
}

/// The position after the token at `index`, which is the stopping token
/// where there is one: it is consumed too.
pub open spec fn past(tokens: Seq<TokenModel>, index: int) -> int {
    if index < tokens.len() {
        index + 1
    } else {
        tokens.len() as int
    }
}

/// The text that a token carries: its own for a text token, none otherwise.
pub open spec fn text_of(token: TokenModel) -> Seq<char> {
    match token {
        TokenModel::Text(text) => text,
        _ => Seq::empty(),
    }
}

/// The texts of the text tokens from `from` up to `to`, joined in order.
pub open spec fn text_between(tokens: Seq<TokenModel>, from: int, to: int) -> Seq<char>
    decreases to - from,
{
    if to <= from {
        Seq::empty()
    } else {
        text_between(tokens, from, to - 1) + text_of(tokens[to - 1])
    }
}

/// The widget for a fenced or indented code block.
pub open spec fn code_widget(lang: Option<Seq<char>>, code: Seq<char>) -> WidgetModel {
    if lang == Some("mermaid"@) {
        WidgetModel::Mermaid(code)
    } else if lang == Some("math"@) {
        WidgetModel::Latex(code)
    } else {
        WidgetModel::CodeBlock { lang, code }
    }
}

/// The widget that `token` becomes, given the text and the widgets collected
/// behind it. `None` where the token has no rule and produces nothing.
pub open spec fn emit(token: TokenModel, text: Seq<char>, children: Seq<WidgetModel>) -> Option<
    WidgetModel,
> {
    match token {
        TokenModel::Start(ConstructModel::Heading(level, _, _)) => Some(
            WidgetModel::Header(level, text),
        ),
        TokenModel::Start(ConstructModel::Strong) => Some(WidgetModel::Bold(text)),
        TokenModel::Start(ConstructModel::Emphasis) => Some(WidgetModel::Italic(text)),
        TokenModel::Start(ConstructModel::CodeBlock(lang)) => Some(code_widget(lang, text)),
        TokenModel::Start(ConstructModel::Table) => Some(WidgetModel::Table(children)),
        TokenModel::Start(ConstructModel::Image(url, title)) => Some(
            WidgetModel::Image { alt: title, url },
        ),
        TokenModel::Start(ConstructModel::Link(url)) => if is_note_link(url) {
            Some(WidgetModel::NoteLink(url))
        } else {
            None
        },
        TokenModel::Html(html) => if opens_details(html) {
            Some(WidgetModel::Details(children))
        } else {
            None
        },
        TokenModel::Text(text) => Some(text_widget(text)),
        _ => None,
    }
}

/// What ends the collection that `token` starts; `None` where the token
/// collects nothing. A heading, strong text, emphasis and a code block
/// collect up to the end of that same construct: a heading up to the end of
/// the heading with its level, its identifier and its classes. A table, a
/// link to a note and a collapsible section collect up to their terminators.
pub open spec fn stop_for(token: TokenModel) -> Option<Stop> {
    match token {
        TokenModel::Start(ConstructModel::Heading(level, id, classes)) => Some(
            Stop::Close(ConstructModel::Heading(level, id, classes)),
        ),
        TokenModel::Start(ConstructModel::Strong) => Some(Stop::Close(ConstructModel::Strong)),
        TokenModel::Start(ConstructModel::Emphasis) => Some(
            Stop::Close(ConstructModel::Emphasis),
        ),
        TokenModel::Start(ConstructModel::CodeBlock(lang)) => Some(
            Stop::Close(ConstructModel::CodeBlock(lang)),
        ),
        TokenModel::Start(ConstructModel::Table) => Some(Stop::TableEnd),
        TokenModel::Start(ConstructModel::Link(url)) => if is_note_link(url) {
            Some(Stop::LinkEnd)
        } else {
            None
        },
        TokenModel::Html(html) => if opens_details(html) {
            Some(Stop::DetailsClose)
        } else {
            None
        },
        _ => None,
    }
}

/// The widget that `token` becomes when the builder is entered on it alone:
/// there is nothing behind it to collect.
pub open spec fn alone(token: TokenModel) -> Option<WidgetModel> {
    emit(token, Seq::empty(), Seq::empty())
}

/// An optional widget as a sequence of none or one.
pub open spec fn produced(widget: Option<WidgetModel>) -> Seq<WidgetModel> {
    match widget {
        Some(w) => seq![w],
        None => Seq::empty(),
    }
}

/// The widgets of the tokens from `from` up to `to`, each token taken alone,
/// in order.
pub open spec fn widgets_between(tokens: Seq<TokenModel>, from: int, to: int) -> Seq<WidgetModel>
    decreases to - from,
{
    if to <= from {
        Seq::empty()
    } else {
        widgets_between(tokens, from, to - 1) + produced(alone(tokens[to - 1]))
    }
}

/// Where the collection that the token at `at` starts comes to a stop: the
/// position of the stopping token, or of the end of the tokens. For a token
/// that collects nothing this is the position right behind it.
pub open spec fn collection_end(tokens: Seq<TokenModel>, at: int) -> int {
    match stop_for(tokens[at]) {
        Some(stop) => stop_index(tokens, at + 1, stop),
        None => at + 1,
    }
}

/// The position at which the builder goes on after the token at `at`.
pub open spec fn resume(tokens: Seq<TokenModel>, at: int) -> int {
    match stop_for(tokens[at]) {
        Some(stop) => past(tokens, stop_index(tokens, at + 1, stop)),
        None => at + 1,
    }
}

/// The widget that the token at `at` becomes in its place in `tokens`.
pub open spec fn widget_at(tokens: Seq<TokenModel>, at: int) -> Option<WidgetModel> {
    let end = collection_end(tokens, at);
    emit(tokens[at], text_between(tokens, at + 1, end), widgets_between(tokens, at + 1, end))
}

/// The widgets that the builder produces from position `from` on.
pub open spec fn build_from(tokens: Seq<TokenModel>, from: int) -> Seq<WidgetModel>
    decreases tokens.len() - from,
{
    if from < 0 || from >= tokens.len() {
        Seq::empty()
    } else {
        proof {
            lemma_resume_advances(tokens, from);
        }
        produced(widget_at(tokens, from)) + build_from(tokens, resume(tokens, from))
    }
}

/// The widgets that the builder produces for `tokens`.
pub open spec fn build(tokens: Seq<TokenModel>) -> Seq<WidgetModel> {
    build_from(tokens, 0)
}

/// A search for the stopping token ends at or after its start and within the
/// tokens, on a token that stops it if on any, and passes none that does.
pub proof fn lemma_stop_index(tokens: Seq<TokenModel>, from: int, stop: Stop)
    requires
        0 <= from <= tokens.len(),
    ensures
        from <= stop_index(tokens, from, stop) <= tokens.len(),
        stop_index(tokens, from, stop) < tokens.len() ==> stop.at(
            tokens[stop_index(tokens, from, stop)],
        ),
        forall|i: int| from <= i < stop_index(tokens, from, stop) ==> !stop.at(#[trigger] tokens[i]),
    decreases tokens.len() - from,
{
    if from < tokens.len() && !stop.at(tokens[from]) {
        lemma_stop_index(tokens, from + 1, stop);
    }
}

/// The builder always moves forward, and never past the end.
pub proof fn lemma_resume_advances(tokens: Seq<TokenModel>, at: int)
    requires
        0 <= at < tokens.len(),
    ensures
        at < resume(tokens, at) <= tokens.len(),
        at < collection_end(tokens, at) <= tokens.len(),
{
    match stop_for(tokens[at]) {
        Some(stop) => {
            lemma_stop_index(tokens, at + 1, stop);
        },
        None => {},
    }
}

/// Entering the builder on one token alone gives what [`alone`] says: the
/// token's widget with nothing collected, or nothing.
pub proof fn lemma_build_alone(token: TokenModel)
    ensures
        build(seq![token]) == produced(alone(token)),
{
    let tokens = seq![token];
    lemma_resume_advances(tokens, 0);
    assert(build_from(tokens, 1) =~= Seq::<WidgetModel>::empty());
    assert(text_between(tokens, 1, 1) =~= Seq::<char>::empty());
    assert(widgets_between(tokens, 1, 1) =~= Seq::<WidgetModel>::empty());
    assert(produced(alone(token)) + Seq::<WidgetModel>::empty() =~= produced(alone(token)));
}

/// The widgets collected between two positions are valid.
pub proof fn lemma_widgets_between_valid(tokens: Seq<TokenModel>, from: int, to: int)
    requires
        valid_tokens(tokens),
        0 <= from,
        to <= tokens.len(),
    ensures
        valid_widgets(widgets_between(tokens, from, to)),
    decreases to - from,
{
    if from < to {
        lemma_widgets_between_valid(tokens, from, to - 1);
        assert(valid_token(tokens[to - 1]));
    }
}

/// Headings keep their level: where every heading token has a level from 1
/// to 6, so has every heading widget that the builder produces, at any depth.
pub proof fn lemma_build_valid(tokens: Seq<TokenModel>, from: int)
    requires
        valid_tokens(tokens),
    ensures
        valid_widgets(build_from(tokens, from)),
    decreases tokens.len() - from,
{
    if 0 <= from < tokens.len() {
        lemma_resume_advances(tokens, from);
        lemma_build_valid(tokens, resume(tokens, from));
        lemma_widgets_between_valid(tokens, from + 1, collection_end(tokens, from));
        assert(valid_token(tokens[from]));
    }
}

/// A search for the stopping token is pinned down by where it ends: nothing
/// before that position stops it, and the token there does, if there is one.
pub proof fn lemma_stop_index_found(tokens: Seq<TokenModel>, from: int, stop: Stop, end: int)
    requires
        0 <= from <= end <= tokens.len(),
        forall|i: int| from <= i < end ==> !stop.at(#[trigger] tokens[i]),
        end == tokens.len() || stop.at(tokens[end]),
    ensures
        stop_index(tokens, from, stop) == end,
    decreases end - from,
{
    if from < end {
        lemma_stop_index_found(tokens, from + 1, stop, end);
    }
}

/// A predicate that ends a collection of widgets.
#[derive(Clone, Copy, Debug)]
pub enum Terminator {
    /// The end of a table.
    TableEnd,
    /// The end of a link.
    LinkEnd,
    /// Raw HTML that closes a collapsible section.
    DetailsClose,
}

impl View for Terminator {
    type V = Stop;

    open spec fn view(&self) -> Stop {
        match *self {
            Terminator::TableEnd => Stop::TableEnd,
            Terminator::LinkEnd => Stop::LinkEnd,
            Terminator::DetailsClose => Stop::DetailsClose,
        }
    }
}

impl Terminator {
    /// Whether `token` ends the collection.
    pub fn accepts(self, token: &Token) -> (stops: bool)
        ensures
            stops == self@.at(token@),
    {
        match self {
            Terminator::TableEnd => match token {
                Token::End(Construct::Table) => true,
                _ => false,
            },
            Terminator::LinkEnd => match token {
                Token::End(Construct::Link(_)) => true,
                _ => false,
            },
            Terminator::DetailsClose => match token {
                Token::Html(html) => starts_with(trimmed(html.as_str()), "</details"),
                _ => false,
            },
        }
    }
}

/// What a token collects from the tokens behind it.
pub enum Collection {
    /// Text, up to the token that closes this construct.
    Text(Construct),
    /// Widgets, up to the token that the terminator accepts.
    Widgets(Terminator),
    /// Nothing.
    Nothing,
}

impl View for Collection {
    type V = Option<Stop>;

    open spec fn view(&self) -> Option<Stop> {
        match *self {
            Collection::Text(until) => Some(Stop::Close(until@)),
            Collection::Widgets(end) => Some(end@),
            Collection::Nothing => None,
        }
    }
}

/// The view of an optional widget.
pub open spec fn optional_widget(widget: Option<Widget>) -> Option<WidgetModel> {
    match widget {
        Some(w) => Some(w@),
        None => None,
    }
}

/// A copy of an optional string.
fn copy_of(text: &Option<String>) -> (copy: Option<String>)
    ensures
        copy == *text,
{
    match text {
        Some(t) => Some(t.clone()),
        None => None,
    }
}

/// Decides what `token` collects.
pub fn collection_of(token: &Token) -> (collection: Collection)
    ensures
        collection@ == stop_for(token@),
{
    match token {
        Token::Start(Construct::Heading(level, id, classes)) => Collection::Text(
            Construct::Heading(*level, copy_of(id), copy_texts(classes)),
        ),
        Token::Start(Construct::Strong) => Collection::Text(Construct::Strong),
        Token::Start(Construct::Emphasis) => Collection::Text(Construct::Emphasis),
        Token::Start(Construct::CodeBlock(lang)) => Collection::Text(
            Construct::CodeBlock(copy_of(lang)),
        ),
        Token::Start(Construct::Table) => Collection::Widgets(Terminator::TableEnd),
        Token::Start(Construct::Link(url)) => if starts_with(url.as_str(), "note://") {
            Collection::Widgets(Terminator::LinkEnd)
        } else {
            Collection::Nothing
        },
        Token::Html(html) => if starts_with(trimmed(html.as_str()), "<details") {
            Collection::Widgets(Terminator::DetailsClose)
        } else {
            Collection::Nothing
        },
        _ => Collection::Nothing,
    }
}

/// Builds the widget for a code block from its language tag and its code.
fn code_block(lang: &Option<String>, code: String) -> (widget: Widget)
    ensures
        widget@ == code_widget(optional_text(*lang), code@),
{
    match lang {
        Some(tag) => {
            if same_text(tag.as_str(), "mermaid") {
                Widget::Mermaid(code)
            } else if same_text(tag.as_str(), "math") {
                Widget::Latex(code)
            } else {
                Widget::CodeBlock { lang: Some(tag.clone()), code }
            }
        },
        None => Widget::CodeBlock { lang: None, code },
    }
}

/// Builds the widget that `token` becomes, given the text and the widgets
/// collected behind it.
pub fn emit_widget(token: &Token, text: String, children: Vec<Widget>) -> (widget: Option<Widget>)
    ensures
        optional_widget(widget) == emit(token@, text@, widget_models(children@)),
{
    match token {
        Token::Start(Construct::Heading(level, _, _)) => Some(Widget::Header(*level, text)),
        Token::Start(Construct::Strong) => Some(Widget::Bold(text)),
        Token::Start(Construct::Emphasis) => Some(Widget::Italic(text)),
        Token::Start(Construct::CodeBlock(lang)) => Some(code_block(lang, text)),
        Token::Start(Construct::Table) => Some(Widget::Table(children)),
        Token::Start(Construct::Image(url, title)) => Some(
            Widget::Image { alt: title.clone(), url: url.clone() },
        ),
        Token::Start(Construct::Link(url)) => if starts_with(url.as_str(), "note://") {
            Some(Widget::NoteLink(url.clone()))
        } else {
            None
        },
        Token::Html(html) => if starts_with(trimmed(html.as_str()), "<details") {
            Some(Widget::Details(children))
        } else {
            None
        },
        Token::Text(run) => Some(classify_text(run.as_str())),
        _ => None,
    }
}

/// Builds the widget that `token` becomes when the builder is entered on it
/// alone.
pub fn parse_alone(token: &Token) -> (widget: Option<Widget>)
    ensures
        optional_widget(widget) == alone(token@),
{
    emit_widget(token, String::new(), Vec::new())
}

/// Joins the text of every text token from `from` on, up to the token that
/// closes `until`, which is consumed too. Returns the text and the position
/// to go on at.
pub fn collect_text(tokens: &[Token], from: usize, until: &Construct) -> (collected: (
    String,
    usize,
))
    requires
        from <= tokens.len(),
    ensures
        ({
            let models = token_models(tokens@);
            let end = stop_index(models, from as int, Stop::Close(until@));
            &&& collected.0@ == text_between(models, from as int, end)
            &&& collected.1 == past(models, end)
        }),
{
    let ghost models = token_models(tokens@);
    let ghost stop = Stop::Close(until@);
    let mut text = String::new();
    let mut at: usize = from;
    while at < tokens.len()
        invariant
            from <= at <= tokens.len(),
            models == token_models(tokens@),
            stop == Stop::Close(until@),
            text@ == text_between(models, from as int, at as int),
            forall|i: int| from <= i < at ==> !stop.at(#[trigger] models[i]),
        decreases tokens.len() - at,
    {
        match &tokens[at] {
            Token::End(construct) => {
                if construct.same_as(until) {
                    proof {
                        lemma_stop_index_found(models, from as int, stop, at as int);
                    }
                    return (text, at + 1);
                }
            },
            Token::Text(run) => {
                text.append(run.as_str());
            },
            _ => {},
        }
        at += 1;
    }
    proof {
        lemma_stop_index_found(models, from as int, stop, at as int);
    }
    (text, at)
}

/// Builds the widgets of the tokens from `from` on, each token taken alone,
/// up to the token that `end` accepts, which is consumed too. Returns the
/// widgets and the position to go on at.
pub fn parse_until(tokens: &[Token], from: usize, end: Terminator) -> (parsed: (Vec<Widget>, usize))
    requires
        from <= tokens.len(),
    ensures
        ({
            let models = token_models(tokens@);
            let stop = stop_index(models, from as int, end@);
            &&& widget_models(parsed.0@) == widgets_between(models, from as int, stop)
            &&& parsed.1 == past(models, stop)
        }),
{
    let ghost models = token_models(tokens@);
    let mut collected: Vec<Widget> = Vec::new();
    let mut at: usize = from;
    while at < tokens.len()
        invariant
            from <= at <= tokens.len(),
            models == token_models(tokens@),
            widget_models(collected@) == widgets_between(models, from as int, at as int),
            forall|i: int| from <= i < at ==> !end@.at(#[trigger] models[i]),
        decreases tokens.len() - at,
    {
        if end.accepts(&tokens[at]) {
            proof {
                lemma_stop_index_found(models, from as int, end@, at as int);
            }
            return (collected, at + 1);
        }
        match parse_alone(&tokens[at]) {
            Some(widget) => {
                proof {
                    lemma_widget_models_push(collected@, widget);
                }
                collected.push(widget);
            },
            None => {},
        }
        at += 1;
    }
    proof {
        lemma_stop_index_found(models, from as int, end@, at as int);
    }
    (collected, at)
}

/// Builds the widget of the token at `at` in its place, consuming what the
/// token collects. Returns the widget, if the token has one, and the position
/// to go on at.
pub fn parse_token(tokens: &[Token], at: usize) -> (step: (Option<Widget>, usize))
    requires
        at < tokens.len(),
    ensures
        optional_widget(step.0) == widget_at(token_models(tokens@), at as int),
        step.1 == resume(token_models(tokens@), at as int),
        at < step.1 <= tokens.len(),
{
    proof {
        lemma_resume_advances(token_models(tokens@), at as int);
    }
    match collection_of(&tokens[at]) {
        Collection::Text(until) => {
            let (text, next) = collect_text(tokens, at + 1, &until);
            (emit_widget(&tokens[at], text, Vec::new()), next)
        },
        Collection::Widgets(end) => {
            let (children, next) = parse_until(tokens, at + 1, end);
            (emit_widget(&tokens[at], String::new(), children), next)
        },
        Collection::Nothing => (emit_widget(&tokens[at], String::new(), Vec::new()), at + 1),
    }
}

/// Builds the widgets of a token sequence. Every sequence has a result: a
/// token without a rule is passed over, and text that no detector accepts is
/// kept as plain text.
pub fn parse_events(tokens: &[Token]) -> (widgets: Vec<Widget>)
    ensures
        widget_models(widgets@) == build(token_models(tokens@)),
        valid_tokens(token_models(tokens@)) ==> valid_widgets(widget_models(widgets@)),
{
    let ghost models = token_models(tokens@);
    proof {
        if valid_tokens(models) {
            lemma_build_valid(models, 0);
        }
    }
    let mut widgets: Vec<Widget> = Vec::new();
    let mut at: usize = 0;
    while at < tokens.len()
        invariant
            0 <= at <= tokens.len(),
            models == token_models(tokens@),
            build(models) == widget_models(widgets@) + build_from(models, at as int),
        decreases tokens.len() - at,
    {
        let (widget, next) = parse_token(tokens, at);
        match widget {
            Some(w) => {
                proof {
                    lemma_widget_models_push(widgets@, w);
                    assert(widget_models(widgets@.push(w)) + build_from(models, next as int)
                        =~= widget_models(widgets@) + (seq![w@] + build_from(
                        models,
                        next as int,
                    )));
                }
                widgets.push(w);
            },
            None => {
                proof {
                    assert(Seq::<WidgetModel>::empty() + build_from(models, next as int)
                        =~= build_from(models, next as int));
                }
            },
        }
        at = next;
    }
    proof {
        assert(widget_models(widgets@) + Seq::<WidgetModel>::empty() =~= widget_models(widgets@));
    }
    widgets
}

} // verus!
