//! State and decisions of the terminal editor.

pub mod file_explorer;
pub mod preview;
pub mod sidebar;
