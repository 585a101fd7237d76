//! The cached view of the notes directory.

pub mod fs_tree;
