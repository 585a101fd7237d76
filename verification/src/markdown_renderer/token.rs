//! The structural tokens that the widget builder consumes.

use vstd::prelude::*;

verus! {

/// A construct that a token opens or closes.
#[derive(Clone, Debug, PartialEq, Eq)]
pub enum Construct {
    /// A heading: its level, its fragment identifier and its classes.
    Heading(u32, Option<String>, Vec<String>),
    Strong,
    Emphasis,
    /// A code block: the language tag of its fence, `None` when it is indented.
    CodeBlock(Option<String>),
    Table,
    /// An image: its target and its title.
    Image(String, String),
    /// A link: its target.
    Link(String),
    /// Any construct that the builder has no rule for.
    Other,
}

/// One structural event of a markdown document.
#[derive(Clone, Debug, PartialEq, Eq)]
pub enum Token {
    Start(Construct),
    End(Construct),
    Text(String),
    Html(String),
    /// Any event that the builder has no rule for.
    Other,
}

/// What a [`Construct`] holds, as mathematical values.
pub ghost enum ConstructModel {
    Heading(u32, Option<Seq<char>>, Seq<Seq<char>>),
    Strong,
    Emphasis,
    CodeBlock(Option<Seq<char>>),
    Table,
    Image(Seq<char>, Seq<char>),
    Link(Seq<char>),
    Other,
}

/// What a [`Token`] holds, as mathematical values.
pub ghost enum TokenModel {
    Start(ConstructModel),
    End(ConstructModel),
    Text(Seq<char>),
    Html(Seq<char>),
    Other,
}

/// Whether a heading that `token` opens has a level from 1 to 6.
pub open spec fn valid_token(token: TokenModel) -> bool {
    token matches TokenModel::Start(ConstructModel::Heading(level, _, _)) ==> 1 <= level <= 6
}

/// Whether every token of a sequence is valid.
pub open spec fn valid_tokens(tokens: Seq<TokenModel>) -> bool {
    forall|i: int| 0 <= i < tokens.len() ==> valid_token(#[trigger] tokens[i])
}

/// The views of a sequence of strings.
pub open spec fn text_models(texts: Seq<String>) -> Seq<Seq<char>> {
    Seq::new(texts.len(), |i: int| texts[i]@)
}

/// The view of an optional string.
pub open spec fn optional_text(text: Option<String>) -> Option<Seq<char>> {
    match text {
        Some(t) => Some(t@),
        None => None,
    }
}

impl View for Construct {
    type V = ConstructModel;

    open spec fn view(&self) -> ConstructModel {
        match *self {
            Construct::Heading(level, id, classes) => ConstructModel::Heading(
                level,
                optional_text(id),
                text_models(classes@),
            ),
            Construct::Strong => ConstructModel::Strong,
            Construct::Emphasis => ConstructModel::Emphasis,
            Construct::CodeBlock(lang) => ConstructModel::CodeBlock(optional_text(lang)),
            Construct::Table => ConstructModel::Table,
            Construct::Image(url, title) => ConstructModel::Image(url@, title@),
            Construct::Link(url) => ConstructModel::Link(url@),
            Construct::Other => ConstructModel::Other,
        }
    }
}

impl View for Token {
    type V = TokenModel;

    open spec fn view(&self) -> TokenModel {
        match *self {
            Token::Start(construct) => TokenModel::Start(construct@),
            Token::End(construct) => TokenModel::End(construct@),
            Token::Text(text) => TokenModel::Text(text@),
            Token::Html(html) => TokenModel::Html(html@),
            Token::Other => TokenModel::Other,
        }
    }
}

/// Whether two optional strings hold the same text.
pub fn same_optional_text(left: &Option<String>, right: &Option<String>) -> (same: bool)
    ensures
        same == (optional_text(*left) == optional_text(*right)),
{
    match (left, right) {
        (Some(a), Some(b)) => *a == *b,
        (None, None) => true,
        _ => false,
    }
}

/// Whether two lists of strings hold the same texts in the same order.
pub fn same_texts(left: &Vec<String>, right: &Vec<String>) -> (same: bool)
    ensures
        same == (text_models(left@) == text_models(right@)),
{
    if left.len() != right.len() {
        proof {
            assert(text_models(left@).len() != text_models(right@).len());
        }
        return false;
    }
    let mut i: usize = 0;
    while i < left.len()
        invariant
            left.len() == right.len(),
            0 <= i <= left.len(),
            forall|k: int| 0 <= k < i ==> left@[k]@ == right@[k]@,
        decreases left.len() - i,
    {
        if left[i] != right[i] {
            proof {
                assert(text_models(left@)[i as int] != text_models(right@)[i as int]);
            }
            return false;
        }
        i += 1;
    }
    proof {
        assert(text_models(left@) =~= text_models(right@));
    }
    true
}

/// A copy of a list of strings.
pub fn copy_texts(texts: &Vec<String>) -> (copy: Vec<String>)
    ensures
        text_models(copy@) == text_models(texts@),
{
    let mut copy: Vec<String> = Vec::new();
    let mut i: usize = 0;
    while i < texts.len()
        invariant
            0 <= i <= texts.len(),
            copy@.len() == i,
            forall|k: int| 0 <= k < i ==> copy@[k]@ == texts@[k]@,
        decreases texts.len() - i,
    {
        copy.push(texts[i].clone());
        i += 1;
    }
    proof {
        assert(text_models(copy@) =~= text_models(texts@));
    }
    copy
}

impl Construct {
    /// Whether `self` and `other` are the same construct with the same
    /// contents.
    pub fn same_as(&self, other: &Construct) -> (same: bool)
        ensures
            same == (self@ == other@),
    {
        match (self, other) {
            (Construct::Heading(l1, i1, c1), Construct::Heading(l2, i2, c2)) => *l1 == *l2
                && same_optional_text(i1, i2) && same_texts(c1, c2),
            (Construct::Strong, Construct::Strong) => true,
            (Construct::Emphasis, Construct::Emphasis) => true,
            (Construct::CodeBlock(a), Construct::CodeBlock(b)) => same_optional_text(a, b),
            (Construct::Table, Construct::Table) => true,
            (Construct::Image(u1, t1), Construct::Image(u2, t2)) => *u1 == *u2 && *t1 == *t2,
            (Construct::Link(u1), Construct::Link(u2)) => *u1 == *u2,
            (Construct::Other, Construct::Other) => true,
            _ => false,
        }
    }
}

/// The views of a sequence of tokens.
pub open spec fn token_models(tokens: Seq<Token>) -> Seq<TokenModel> {
    Seq::new(tokens.len(), |i: int| tokens[i]@)
}

} // verus!
