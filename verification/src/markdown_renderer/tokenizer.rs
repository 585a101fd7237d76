//! The markdown tokenizer, as the widget builder sees it.

use super::token::Construct::{self, CodeBlock, Emphasis, Heading, Image, Link, Strong, Table};
use super::token::{
    token_models, valid_token, valid_tokens, ConstructModel, Token, TokenModel,
};
use pulldown_cmark::{CodeBlockKind, Event, Options, Parser, Tag};
use vstd::prelude::*;

verus! {

/// `pulldown_cmark::Tag`, carried through as it comes; what it holds is read
/// by [`construct_of`] alone.
#[verifier::external_type_specification]
#[verifier::external_body]
pub struct ExTag<'a>(Tag<'a>);

/// An event of the tokenizer whose construct is still in the tokenizer's own
/// form.
pub enum RawToken<'a> {
    Start(Tag<'a>),
    End(Tag<'a>),
    Text(String),
    Html(String),
    Other,
}

/// The token sequence that `pulldown_cmark::Parser` yields for `text` with
/// every extension switched on.
pub uninterp spec fn markdown_tokens(text: Seq<char>) -> Seq<TokenModel>;

/// What a tag of the tokenizer holds: the construct it stands for.
pub uninterp spec fn tag_construct(tag: Tag) -> ConstructModel;

impl<'a> View for RawToken<'a> {
    type V = TokenModel;

    open spec fn view(&self) -> TokenModel {
        match *self {
            RawToken::Start(tag) => TokenModel::Start(tag_construct(tag)),
            RawToken::End(tag) => TokenModel::End(tag_construct(tag)),
            RawToken::Text(text) => TokenModel::Text(text@),
            RawToken::Html(html) => TokenModel::Html(html@),
            RawToken::Other => TokenModel::Other,
        }
    }
}

/// The views of a sequence of raw tokens.
pub open spec fn raw_models(raw: Seq<RawToken>) -> Seq<TokenModel> {
    Seq::new(raw.len(), |i: int| raw[i]@)
}

/// Runs `pulldown_cmark::Parser::new_ext` over `input` with every extension
/// switched on and collects its events. The contract only gives the outcome a
/// name: the events are a function of the text.
#[verifier::external_body]
fn raw_tokens<'a>(input: &'a str) -> (raw: Vec<RawToken<'a>>)
    ensures
        raw_models(raw@) == markdown_tokens(input@),
{
    Parser::new_ext(input, Options::all()).map(|event| match event {
        Event::Start(tag) => RawToken::Start(tag),
        Event::End(tag) => RawToken::End(tag),
        Event::Text(text) => RawToken::Text(text.into_string()),
        Event::Html(html) => RawToken::Html(html.into_string()),
        _ => RawToken::Other,
    }).collect()
}

/// Copies out of a `pulldown_cmark::Tag` what the builder reads. The contract
/// names the outcome and adds that a heading's level lies between 1 and 6, the
/// discriminants of `pulldown_cmark::HeadingLevel`.
#[verifier::external_body]
fn construct_of(tag: &Tag) -> (construct: Construct)
    ensures
        construct@ == tag_construct(*tag),
        construct@ matches ConstructModel::Heading(level, _, _) ==> 1 <= level <= 6,
{
    match tag {
        Tag::Heading(level, id, classes) => {
            Heading(*level as u32, id.map(String::from), classes.iter().map(|c| c.to_string()).collect())
        },
        Tag::Strong => Strong,
        Tag::Emphasis => Emphasis,
        Tag::CodeBlock(CodeBlockKind::Fenced(lang)) => CodeBlock(Some(lang.to_string())),
        Tag::CodeBlock(CodeBlockKind::Indented) => CodeBlock(None),
        Tag::Table(_) => Table,
        Tag::Image(_, url, title) => Image(url.to_string(), title.to_string()),
        Tag::Link(_, url, _) => Link(url.to_string()),
        _ => Construct::Other,
    }
}

/// The tokens of `input`, in document order. Every heading among them has a
/// level from 1 to 6.
pub fn tokenize(input: &str) -> (tokens: Vec<Token>)
    ensures
        token_models(tokens@) == markdown_tokens(input@),
        valid_tokens(markdown_tokens(input@)),
{
    let raw = raw_tokens(input);
    let mut tokens: Vec<Token> = Vec::new();
    let mut i: usize = 0;
    while i < raw.len()
        invariant
            0 <= i <= raw.len(),
            tokens.len() == i,
            forall|k: int| 0 <= k < i ==> tokens@[k]@ == raw@[k]@,
            forall|k: int| 0 <= k < i ==> valid_token(#[trigger] tokens@[k]@),
        decreases raw.len() - i,
    {
        let token = match &raw[i] {
            RawToken::Start(tag) => Token::Start(construct_of(tag)),
            RawToken::End(tag) => Token::End(construct_of(tag)),
            RawToken::Text(text) => Token::Text(text.clone()),
            RawToken::Html(html) => Token::Html(html.clone()),
            RawToken::Other => Token::Other,
        };
        tokens.push(token);
        i += 1;
    }
    proof {
        assert(token_models(tokens@) =~= raw_models(raw@));
    }
    tokens
}

} // verus!
