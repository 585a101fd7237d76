//! The sidebar of the terminal editor.

use crate::clock::{elapsed, elapsed_since};
use crate::core_notes::events::{EventSink, Message, SidebarAction};
use vstd::prelude::*;

verus! {

/// Pixel art icons used in the sidebar, one string per line.
pub const ICON_HOME_ART: [&'static str; 4] = [" /\\ ", "/__\\", "|  |", "|__|"];

pub const ICON_SEARCH_ART: [&'static str; 4] = [" /\\ ", "(  )", " \\/ ", " /  "];

pub const ICON_ADD_ART: [&'static str; 3] = ["  +  ", " +++ ", "  +  "];

pub const ICON_SETTINGS_ART: [&'static str; 3] = ["[===]", "| o |", "[===]"];

pub const ICON_BACK_ART: [&'static str; 1] = ["<--"];

/// What the sidebar can ask of a file explorer.
#[derive(Debug, Clone, Copy, PartialEq, Eq, Structural)]
pub enum ExplorerCall {
    GoHome,
    NewNote,
    Search,
    GoBack,
    Settings,
}

/// A file explorer that the sidebar can trigger actions on.
pub trait FileExplorer {
    /// Whether `after` is a state in which the explorer can be once it has
    /// answered `call` in this state. Each explorer says for itself what its
    /// methods do to it; one that says nothing allows every state.
    open spec fn answers(&self, call: ExplorerCall, after: &Self) -> bool {
        true
    }

    fn go_home(&mut self)
        ensures
            old(self).answers(ExplorerCall::GoHome, final(self)),
    ;

    fn new_note(&mut self)
        ensures
            old(self).answers(ExplorerCall::NewNote, final(self)),
    ;

    fn search(&mut self)
        ensures
            old(self).answers(ExplorerCall::Search, final(self)),
    ;

    fn go_back(&mut self)
        ensures
            old(self).answers(ExplorerCall::GoBack, final(self)),
    ;

    fn settings(&mut self)
        ensures
            old(self).answers(ExplorerCall::Settings, final(self)),
    ;
}

/// What an action asks of the explorer; `None` for an action that concerns
/// the sidebar alone.
pub open spec fn explorer_call(action: SidebarAction) -> Option<ExplorerCall> {
    match action {
        SidebarAction::Home => Some(ExplorerCall::GoHome),
        SidebarAction::Search => Some(ExplorerCall::Search),
        SidebarAction::Add => Some(ExplorerCall::NewNote),
        SidebarAction::Back => Some(ExplorerCall::GoBack),
        SidebarAction::Settings => Some(ExplorerCall::Settings),
        SidebarAction::Toggle(_) => None,
    }
}

/// An input event, as far as the sidebar tells events apart.
#[derive(Debug, Clone, Copy, PartialEq, Eq, Structural)]
pub enum SidebarEvent {
    /// A character key.
    Char(char),
    /// The tabulator key.
    Tab,
    /// Any other key, and any event that is no key.
    Other,
}

/// Sidebar component state.
pub struct Sidebar {
    pub open: bool,
    /// The clock reading at the last event.
    pub last_interaction: u64,
    /// Milliseconds of inactivity before the sidebar automatically folds.
    pub auto_fold_ms: Option<u64>,
}

/// The action that an event triggers, given whether the sidebar is open.
pub open spec fn action_of(event: SidebarEvent, open: bool) -> Option<SidebarAction> {
    match event {
        SidebarEvent::Char('h') => Some(SidebarAction::Home),
        SidebarEvent::Char('f') => Some(SidebarAction::Search),
        SidebarEvent::Char('n') => Some(SidebarAction::Add),
        SidebarEvent::Char('b') => Some(SidebarAction::Back),
        SidebarEvent::Char('s') => Some(SidebarAction::Settings),
        SidebarEvent::Tab => Some(SidebarAction::Toggle(!open)),
        _ => None,
    }
}

/// Whether a sidebar folds at a tick: it is open, folds automatically, and
/// has been idle for at least the time set.
pub open spec fn folds(sidebar: Sidebar, now: u64) -> bool {
    sidebar.open && sidebar.auto_fold_ms is Some && elapsed(sidebar.last_interaction, now)
        >= sidebar.auto_fold_ms->Some_0
}

impl Sidebar {
    /// A closed sidebar, last touched at `now`.
    pub fn new(auto_fold_ms: Option<u64>, now: u64) -> (sidebar: Self)
        ensures
            sidebar == (Sidebar { open: false, last_interaction: now, auto_fold_ms }),
    {
        Sidebar { open: false, last_interaction: now, auto_fold_ms }
    }

    /// Handles an event that arrives at `now`. Returns the action that the
    /// event triggers; the tabulator key flips the sidebar. Every event
    /// counts as an interaction.
    pub fn handle_event(&mut self, event: SidebarEvent, now: u64) -> (action: Option<
        SidebarAction,
    >)
        ensures
            action == action_of(event, old(self).open),
            final(self).open == (if event == SidebarEvent::Tab {
                !old(self).open
            } else {
                old(self).open
            }),
            final(self).last_interaction == now,
            final(self).auto_fold_ms == old(self).auto_fold_ms,
    {
        let action = match event {
            SidebarEvent::Char(c) => {
                if c == 'h' {
                    Some(SidebarAction::Home)
                } else if c == 'f' {
                    Some(SidebarAction::Search)
                } else if c == 'n' {
                    Some(SidebarAction::Add)
                } else if c == 'b' {
                    Some(SidebarAction::Back)
                } else if c == 's' {
                    Some(SidebarAction::Settings)
                } else {
                    None
                }
            },
            SidebarEvent::Tab => {
                self.open = !self.open;
                Some(SidebarAction::Toggle(self.open))
            },
            SidebarEvent::Other => None,
        };
        self.last_interaction = now;
        action
    }

    /// Folds the sidebar at `now` where it has been idle for long enough.
    /// To be called periodically.
    pub fn tick(&mut self, now: u64)
        ensures
            final(self).open == (old(self).open && !folds(*old(self), now)),
            final(self).last_interaction == old(self).last_interaction,
            final(self).auto_fold_ms == old(self).auto_fold_ms,
    {
        if self.open {
            if let Some(ms) = self.auto_fold_ms {
                if elapsed_since(self.last_interaction, now) >= ms {
                    self.open = false;
                }
            }
        }
    }
}

/// Carries out an action: tells the explorer, where the action concerns it,
/// and sends the action to the sink. The explorer is left as the one call
/// that the action asks for leaves it, and untouched by an action that asks
/// for none.
pub fn perform<E: EventSink, F: FileExplorer>(action: SidebarAction, sink: &E, explorer: &mut F)
    ensures
        match explorer_call(action) {
            Some(call) => old(explorer).answers(call, final(explorer)),
            None => *final(explorer) == *old(explorer),
        },
{
    match action {
        SidebarAction::Home => explorer.go_home(),
        SidebarAction::Search => explorer.search(),
        SidebarAction::Add => explorer.new_note(),
        SidebarAction::Back => explorer.go_back(),
        SidebarAction::Settings => explorer.settings(),
        SidebarAction::Toggle(_) => {},
    }
    sink.send(Message::SidebarAction(action));
}

} // verus!
