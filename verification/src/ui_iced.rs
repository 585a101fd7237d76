//! State and messages of the graphical editor.

pub mod editor;
pub mod sidebar;
