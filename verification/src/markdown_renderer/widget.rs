//! The widgets that a rendered document is made of.

use vstd::prelude::*;

verus! {

/// One rendered unit of a document.
#[derive(Debug, PartialEq, Eq)]
pub enum Widget {
    /// A heading: its level, from 1 to 6, and its text.
    Header(u32, String),
    Bold(String),
    Italic(String),
    /// A code block: the language tag of its fence, if it has one, and its code.
    CodeBlock { lang: Option<String>, code: String },
    /// Math source, from a `math` block or from inline dollar delimiters.
    Latex(String),
    Image { alt: String, url: String },
    /// A table and the widgets inside it.
    Table(Vec<Widget>),
    /// The source of a diagram.
    Mermaid(String),
    /// A collapsible section and the widgets inside it.
    Details(Vec<Widget>),
    Text(String),
    /// A link to another note: its target.
    NoteLink(String),
    /// A directive that includes another note: the note's identifier.
    IncludeNote(String),
    /// A directive that shows an image: the image's identifier.
    CustomImage(String),
}

/// What a [`Widget`] holds, as mathematical values.
pub ghost enum WidgetModel {
    Header(u32, Seq<char>),
    Bold(Seq<char>),
    Italic(Seq<char>),
    CodeBlock { lang: Option<Seq<char>>, code: Seq<char> },
    Latex(Seq<char>),
    Image { alt: Seq<char>, url: Seq<char> },
    Table(Seq<WidgetModel>),
    Mermaid(Seq<char>),
    Details(Seq<WidgetModel>),
    Text(Seq<char>),
    NoteLink(Seq<char>),
    IncludeNote(Seq<char>),
    CustomImage(Seq<char>),
}

/// The model of one widget.
pub open spec fn widget_model(widget: Widget) -> WidgetModel
    decreases widget,
{
    match widget {
        Widget::Header(level, text) => WidgetModel::Header(level, text@),
        Widget::Bold(text) => WidgetModel::Bold(text@),
        Widget::Italic(text) => WidgetModel::Italic(text@),
        Widget::CodeBlock { lang, code } => WidgetModel::CodeBlock {
            lang: match lang {
                Some(l) => Some(l@),
                None => None,
            },
            code: code@,
        },
        Widget::Latex(source) => WidgetModel::Latex(source@),
        Widget::Image { alt, url } => WidgetModel::Image { alt: alt@, url: url@ },
        Widget::Table(children) => WidgetModel::Table(widget_models(children@)),
        Widget::Mermaid(code) => WidgetModel::Mermaid(code@),
        Widget::Details(children) => WidgetModel::Details(widget_models(children@)),
        Widget::Text(text) => WidgetModel::Text(text@),
        Widget::NoteLink(url) => WidgetModel::NoteLink(url@),
        Widget::IncludeNote(id) => WidgetModel::IncludeNote(id@),
        Widget::CustomImage(id) => WidgetModel::CustomImage(id@),
    }
}

/// The models of a sequence of widgets, in order.
pub open spec fn widget_models(widgets: Seq<Widget>) -> Seq<WidgetModel>
    decreases widgets,
{
    if widgets.len() == 0 {
        Seq::empty()
    } else {
        widget_models(widgets.drop_last()).push(widget_model(widgets.last()))
    }
}

/// Whether every heading in `widget`, at any depth, has a level from 1 to 6.
pub open spec fn valid_widget(widget: WidgetModel) -> bool
    decreases widget,
{
    match widget {
        WidgetModel::Header(level, _) => 1 <= level <= 6,
        WidgetModel::Table(children) => forall|i: int|
            0 <= i < children.len() ==> valid_widget(#[trigger] children[i]),
        WidgetModel::Details(children) => forall|i: int|
            0 <= i < children.len() ==> valid_widget(#[trigger] children[i]),
        _ => true,
    }
}

/// Whether every widget of a sequence is valid.
pub open spec fn valid_widgets(widgets: Seq<WidgetModel>) -> bool {
    forall|i: int| 0 <= i < widgets.len() ==> valid_widget(#[trigger] widgets[i])
}

impl View for Widget {
    type V = WidgetModel;

    open spec fn view(&self) -> WidgetModel {
        widget_model(*self)
    }
}

impl Clone for Widget {
    /// A copy that holds the same values at every depth.
    fn clone(&self) -> (copy: Self)
        ensures
            copy@ == self@,
        decreases *self,
    {
        match self {
            Widget::Header(level, text) => Widget::Header(*level, text.clone()),
            Widget::Bold(text) => Widget::Bold(text.clone()),
            Widget::Italic(text) => Widget::Italic(text.clone()),
            Widget::CodeBlock { lang, code } => Widget::CodeBlock {
                lang: match lang {
                    Some(tag) => Some(tag.clone()),
                    None => None,
                },
                code: code.clone(),
            },
            Widget::Latex(source) => Widget::Latex(source.clone()),
            Widget::Image { alt, url } => Widget::Image { alt: alt.clone(), url: url.clone() },
            Widget::Table(children) => Widget::Table(clone_widgets(children)),
            Widget::Mermaid(code) => Widget::Mermaid(code.clone()),
            Widget::Details(children) => Widget::Details(clone_widgets(children)),
            Widget::Text(text) => Widget::Text(text.clone()),
            Widget::NoteLink(url) => Widget::NoteLink(url.clone()),
            Widget::IncludeNote(id) => Widget::IncludeNote(id.clone()),
            Widget::CustomImage(id) => Widget::CustomImage(id.clone()),
        }
    }
}

/// Copies of the given widgets, in order.
pub fn clone_widgets(widgets: &Vec<Widget>) -> (copies: Vec<Widget>)
    ensures
        widget_models(copies@) == widget_models(widgets@),
    decreases widgets,
{
    let mut copies: Vec<Widget> = Vec::new();
    let mut i: usize = 0;
    while i < widgets.len()
        invariant
            0 <= i <= widgets.len(),
            widget_models(copies@) == widget_models(widgets@.take(i as int)),
        decreases widgets.len() - i,
    {
        let copy = widgets[i].clone();
        proof {
            lemma_widget_models_push(copies@, copy);
            lemma_widget_models_push(widgets@.take(i as int), widgets@[i as int]);
            assert(widgets@.take(i as int).push(widgets@[i as int]) =~= widgets@.take(i + 1));
        }
        copies.push(copy);
        i += 1;
    }
    proof {
        assert(widgets@.take(i as int) =~= widgets@);
    }
    copies
}

/// The models of a sequence are taken position by position.
pub proof fn lemma_widget_models(widgets: Seq<Widget>)
    ensures
        widget_models(widgets).len() == widgets.len(),
        forall|i: int| 0 <= i < widgets.len() ==> widget_models(widgets)[i] == widgets[i]@,
    decreases widgets.len(),
{
    if widgets.len() > 0 {
        lemma_widget_models(widgets.drop_last());
    }
}

/// Appending a widget appends its model.
pub proof fn lemma_widget_models_push(widgets: Seq<Widget>, widget: Widget)
    ensures
        widget_models(widgets.push(widget)) == widget_models(widgets).push(widget@),
{
    assert(widgets.push(widget).drop_last() =~= widgets);
}

} // verus!
