//! Debounced reload of the settings file.

use crate::clock::{elapsed, elapsed_since};
use vstd::prelude::*;

verus! {

/// Message types emitted on the event bus.
#[derive(Debug, Clone, Copy)]
pub enum Message {
    ReloadSettings,
}

/// An event bus that messages are published on.
pub trait EventBus {
    fn publish(&self, msg: Message);
}

/// Changes that follow a reload by less than this many milliseconds are
/// coalesced into it.
pub const DEBOUNCE_MS: u64 = 500;

/// The state of the debounce: the clock reading at the last reload, or
/// `None` before the first.
#[derive(Debug, Clone, Copy)]
pub struct Debounce {
    pub last: Option<u64>,
}

/// Whether a change seen at `now` leads to a reload.
pub open spec fn reloads(last: Option<u64>, now: u64) -> bool {
    match last {
        None => true,
        Some(at) => elapsed(at, now) >= DEBOUNCE_MS,
    }
}

impl Debounce {
    /// A debounce that lets the first change through.
    pub fn new() -> (debounce: Self)
        ensures
            debounce.last is None,
    {
        Debounce { last: None }
    }

    /// Takes note of a change to the settings file seen at `now`. Returns the
    /// message to publish where the change leads to a reload; the reload is
    /// then remembered.
    pub fn on_change(&mut self, now: u64) -> (message: Option<Message>)
        ensures
            message is Some == reloads(old(self).last, now),
            final(self).last == (if reloads(old(self).last, now) {
                Some(now)
            } else {
                old(self).last
            }),
    {
        let due = match self.last {
            None => true,
            Some(at) => elapsed_since(at, now) >= DEBOUNCE_MS,
        };
        if due {
            self.last = Some(now);
            Some(Message::ReloadSettings)
        } else {
            None
        }
    }
}

/// Publishes a reload on `bus` where a change seen at `now` leads to one.
pub fn notify_change<B: EventBus>(debounce: &mut Debounce, now: u64, bus: &B)
    ensures
        final(debounce).last == (if reloads(old(debounce).last, now) {
            Some(now)
        } else {
            old(debounce).last
        }),
{
    match debounce.on_change(now) {
        Some(message) => bus.publish(message),
        None => {},
    }
}

} // verus!
