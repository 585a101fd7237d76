//! The prompt that asks which interface to start.

use vstd::prelude::*;

verus! {

/// The interfaces that can be started.
#[derive(Debug, Clone, Copy, PartialEq, Eq, Structural)]
pub enum Mode {
    Gui,
    Tui,
}

/// The labels of the prompt's entries, in order.
pub const OPTIONS: [&'static str; 2] = ["GUI", "TUI"];

/// A key, as far as the prompt tells keys apart.
#[derive(Debug, Clone, Copy, PartialEq, Eq, Structural)]
pub enum PromptKey {
    Up,
    Down,
    Enter,
    /// The key that leaves the prompt without a choice.
    Quit,
    Other,
}

/// What the prompt does after a key.
#[derive(Debug, Clone, Copy, PartialEq, Eq, Structural)]
pub enum PromptStep {
    /// Goes on, with the entry at this position highlighted.
    Continue(usize),
    /// Ends with a choice.
    Chosen(Mode),
    /// Ends without a choice.
    Aborted,
}

/// The interface that the entry at `index` stands for: the first entry is
/// the graphical one, any other the terminal one.
pub open spec fn mode_at(index: usize) -> Mode {
    if index == 0 {
        Mode::Gui
    } else {
        Mode::Tui
    }
}

/// What the prompt does when `key` is pressed while the entry at `index` is
/// highlighted.
pub open spec fn step(index: usize, key: PromptKey) -> PromptStep {
    match key {
        PromptKey::Up => PromptStep::Continue(
            if index > 0 {
                (index - 1) as usize
            } else {
                index
            },
        ),
        PromptKey::Down => PromptStep::Continue(
            if index + 1 < 2 {
                (index + 1) as usize
            } else {
                index
            },
        ),
        PromptKey::Enter => PromptStep::Chosen(mode_at(index)),
        PromptKey::Quit => PromptStep::Aborted,
        PromptKey::Other => PromptStep::Continue(index),
    }
}

/// Decides what the prompt does when `key` is pressed while the entry at
/// `index` is highlighted. The highlight never leaves the entries.
pub fn prompt_step(index: usize, key: PromptKey) -> (next: PromptStep)
    ensures
        next == step(index, key),
        index < 2 ==> (next matches PromptStep::Continue(i) ==> i < 2),
{
    match key {
        PromptKey::Up => PromptStep::Continue(
            if index > 0 {
                index - 1
            } else {
                index
            },
        ),
        PromptKey::Down => PromptStep::Continue(
            if index < 1 {
                index + 1
            } else {
                index
            },
        ),
        PromptKey::Enter => PromptStep::Chosen(
            if index == 0 {
                Mode::Gui
            } else {
                Mode::Tui
            },
        ),
        PromptKey::Quit => PromptStep::Aborted,
        PromptKey::Other => PromptStep::Continue(index),
    }
}

} // verus!
