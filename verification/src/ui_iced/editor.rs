//! The note view of the graphical editor.

use vstd::prelude::*;

verus! {

/// One interactive element of a note.
#[derive(Debug, Clone)]
pub enum InteractiveTag {
    Link(String),
    Checkbox(bool),
    Text(String),
}

/// What the user asks of the note view.
#[derive(Debug, Clone, Copy)]
pub enum EditorMessage {
    /// Flip the element at this position.
    Toggle(usize),
}

/// What an [`InteractiveTag`] holds, as mathematical values.
pub ghost enum TagModel {
    Link(Seq<char>),
    Checkbox(bool),
    Text(Seq<char>),
}

impl View for InteractiveTag {
    type V = TagModel;

    open spec fn view(&self) -> TagModel {
        match *self {
            InteractiveTag::Link(url) => TagModel::Link(url@),
            InteractiveTag::Checkbox(checked) => TagModel::Checkbox(checked),
            InteractiveTag::Text(text) => TagModel::Text(text@),
        }
    }
}

/// The views of a sequence of tags.
pub open spec fn tag_models(tags: Seq<InteractiveTag>) -> Seq<TagModel> {
    Seq::new(tags.len(), |i: int| tags[i]@)
}

/// The element at `index` flipped where it is a checkbox; everything else as
/// it was.
pub open spec fn toggled(tags: Seq<TagModel>, index: int) -> Seq<TagModel> {
    if 0 <= index < tags.len() && tags[index] is Checkbox {
        tags.update(index, TagModel::Checkbox(!tags[index]->Checkbox_0))
    } else {
        tags
    }
}

/// The elements of the note that a new editor shows.
pub open spec fn example_note() -> Seq<TagModel> {
    seq![
        TagModel::Text("Example note"@),
        TagModel::Link("https://example.com"@),
        TagModel::Checkbox(false),
    ]
}

/// The note view: the interactive elements of the note on display.
#[derive(Default)]
pub struct Editor {
    tags: Vec<InteractiveTag>,
}

impl View for Editor {
    type V = Seq<TagModel>;

    closed spec fn view(&self) -> Seq<TagModel> {
        tag_models(self.tags@)
    }
}

impl Editor {
    /// An editor that shows the example note.
    pub fn new() -> (editor: Self)
        ensures
            editor@ == example_note(),
    {
        let editor = Editor { tags: render_viewport() };
        proof {
            assert(tag_models(editor.tags@) =~= example_note());
        }
        editor
    }

    /// Handles a message: flips the checkbox at the position it names, if
    /// there is one.
    pub fn update(&mut self, message: EditorMessage)
        ensures
            final(self)@ == toggled(old(self)@, message->Toggle_0 as int),
    {
        match message {
            EditorMessage::Toggle(index) => {
                if index < self.tags.len() {
                    let flipped = match &self.tags[index] {
                        InteractiveTag::Checkbox(value) => Some(!*value),
                        _ => None,
                    };
                    if let Some(value) = flipped {
                        self.tags.set(index, InteractiveTag::Checkbox(value));
                        proof {
                            assert(tag_models(self.tags@) =~= toggled(
                                tag_models(old(self).tags@),
                                index as int,
                            ));
                        }
                    }
                }
            },
        }
    }

    /// The elements on display, in order.
    pub fn tags(&self) -> (tags: &Vec<InteractiveTag>)
        ensures
            tag_models(tags@) == self@,
    {
        &self.tags
    }
}

/// The elements of the example note.
pub fn render_viewport() -> (tags: Vec<InteractiveTag>)
    ensures
        tag_models(tags@) == example_note(),
{
    let mut tags: Vec<InteractiveTag> = Vec::new();
    tags.push(InteractiveTag::Text("Example note".to_owned()));
    tags.push(InteractiveTag::Link("https://example.com".to_owned()));
    tags.push(InteractiveTag::Checkbox(false));
    proof {
        assert(tag_models(tags@) =~= example_note());
    }
    tags
}

} // verus!
