//! Building blocks of the Elephant Notes editor.

pub mod config;
pub mod interactive_widgets;
pub mod markdown_renderer;
