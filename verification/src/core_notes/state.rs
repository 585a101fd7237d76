//! Application states during runtime.

use vstd::prelude::*;

verus! {

/// Different application states during runtime.
#[derive(Debug, Clone, Copy, PartialEq, Eq, Structural)]
pub enum AppState {
    /// Application is starting up.
    Initializing,
    /// Application is actively running.
    Running,
    /// Application is shutting down.
    ShuttingDown,
}

} // verus!
