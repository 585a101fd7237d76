//! High level events emitted by the application core.

use vstd::prelude::*;

verus! {

/// High level events emitted by the application core.
#[derive(Debug, Clone)]
pub enum Message {
    /// Reload application settings.
    ReloadSettings,
    /// An action from the sidebar component.
    SidebarAction(SidebarAction),
}

/// Actions that originate from the sidebar.
#[derive(Debug, Clone, Copy, PartialEq, Eq, Structural)]
pub enum SidebarAction {
    Home,
    Search,
    Add,
    Back,
    Settings,
    Toggle(bool),
}

/// A sink that accepts the [`Message`]s the application emits.
pub trait EventSink {
    fn send(&self, msg: Message);
}

} // verus!
