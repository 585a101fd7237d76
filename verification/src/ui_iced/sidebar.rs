//! The sidebar of the graphical editor.

use vstd::prelude::*;

verus! {

/// What the user asks of the sidebar.
#[derive(Debug, Clone, Copy)]
pub enum SidebarMessage {
    Toggle,
    SwipeLeft,
    SwipeRight,
}

impl SidebarMessage {
    /// Whether the sidebar is open once the message is handled, given whether
    /// it was `open` before: a toggle flips it, a swipe to the left closes it
    /// and a swipe to the right opens it.
    pub fn apply(self, open: bool) -> (now_open: bool)
        ensures
            now_open == match self {
                SidebarMessage::Toggle => !open,
                SidebarMessage::SwipeLeft => false,
                SidebarMessage::SwipeRight => true,
            },
    {
        match self {
            SidebarMessage::Toggle => !open,
            SidebarMessage::SwipeLeft => false,
            SidebarMessage::SwipeRight => true,
        }
    }
}

} // verus!
