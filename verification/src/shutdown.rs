//! Cooperative shutdown: the latch every task holds, and the decision a
//! listener task takes on each turn of its loop.
//!
//! The broadcast that fires the latch, and the awaiting itself, live in
//! the surrounding application; the application sets the latch through
//! `note_fired` when the shutdown broadcast is received.

use vstd::prelude::*;

use crate::ingest::{keep_event_spec, normalize_event, normalize_spec, keep_event, OsEvent};
use crate::udev::UdevEvent;

verus! {

/// A task's view of the shutdown token: latched once the token fires,
/// and never cleared.
pub struct Shutdown {
    fired: bool,
}

impl Shutdown {
    /// Whether the token has fired.
    pub closed spec fn spec_fired(&self) -> bool {
        self.fired
    }

    /// A fresh latch: the token has not fired.
    pub fn new() -> (r: Self)
        ensures
            !r.spec_fired(),
    {
        Shutdown { fired: false }
    }

    /// Whether shutdown was requested.
    pub fn is_shutdown(&self) -> (r: bool)
        ensures
            r == self.spec_fired(),
    {
        self.fired
    }

    /// Latch the token: called when the shutdown broadcast is received.
    pub fn note_fired(&mut self)
        ensures
            final(self).spec_fired(),
    {
        self.fired = true;
    }
}

/// What the listener does on one turn of its loop.
#[derive(Debug)]
pub enum ListenerAction {
    /// The shutdown token fired: return without draining the stream.
    Exit,
    /// Forward this normalized event to the subscribers.
    Forward(UdevEvent),
    /// Drop this item (a filtered event or a transient source error).
    Skip,
    /// The source is terminal: report and return, so the supervising
    /// mode runner can rebuild the pipeline.
    Fail,
}

/// One item handed to the listener by the kernel event source.
#[derive(Debug)]
pub enum SourceItem {
    /// An event that was constructed successfully.
    Event(OsEvent),
    /// An event that failed to construct.
    SourceError,
    /// The source has ended.
    Closed,
}

/// The listener's decision for one item. Once the shutdown token has
/// fired the decision is `Exit`, whatever the item; otherwise kept
/// events are forwarded normalized, filtered events and transient
/// errors are skipped, and a closed source fails the task.
pub fn listener_step(shutdown: &Shutdown, item: SourceItem) -> (r: ListenerAction)
    ensures
        shutdown.spec_fired() ==> r is Exit,
        !shutdown.spec_fired() ==> match item {
            SourceItem::Event(e) => {
                if keep_event_spec(e@) {
                    r matches ListenerAction::Forward(u) && u@ == normalize_spec(e@)
                } else {
                    r is Skip
                }
            },
            SourceItem::SourceError => r is Skip,
            SourceItem::Closed => r is Fail,
        },
{
    if shutdown.is_shutdown() {
        return ListenerAction::Exit;
    }
    match item {
        SourceItem::Event(e) => {
            if keep_event(&e) {
                ListenerAction::Forward(normalize_event(&e))
            } else {
                ListenerAction::Skip
            }
        },
        SourceItem::SourceError => ListenerAction::Skip,
        SourceItem::Closed => ListenerAction::Fail,
    }
}

} // verus!
