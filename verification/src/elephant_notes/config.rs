//! Settings of the editor.

use vstd::prelude::*;

verus! {

/// Available UI themes.
#[derive(Clone, Copy, Debug, PartialEq, Eq, Structural)]
pub enum Theme {
    Light,
    Dark,
}

/// Settings loaded from the front matter of the settings file.
#[derive(Clone, Copy, Debug, PartialEq, Eq, Structural)]
pub struct Settings {
    /// Milliseconds of inactivity after which the sidebar folds.
    pub auto_fold_ms: u64,
    pub theme: Theme,
}

} // verus!
