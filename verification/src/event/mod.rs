//! The handlers that features register for events of the platform.

use vstd::prelude::*;

verus! {

/// The kinds of event that handlers can be registered for.
#[derive(Copy, Clone, Debug, PartialEq, Eq, Hash, Structural)]
pub enum EventKind {
    /// The session with the platform is up.
    Ready,
}

/// The handlers of each kind of event, in the order in which they were
/// registered.
pub struct EventRegistry<H> {
    ready: Vec<H>,
}

impl<H> EventRegistry<H> {
    /// The handlers registered for `kind`, in order.
    pub closed spec fn queue(&self, kind: EventKind) -> Seq<H> {
        match kind {
            EventKind::Ready => self.ready@,
        }
    }

    /// A registry without handlers.
    pub fn new() -> (registry: Self)
        ensures
            forall|kind: EventKind| #[trigger] registry.queue(kind) == Seq::<H>::empty(),
    {
        EventRegistry { ready: Vec::new() }
    }

    /// Registers `cb` for events of `kind`, behind the handlers that are
    /// registered for it. The handlers of other kinds stay as they are.
    pub fn add(&mut self, kind: EventKind, cb: H)
        ensures
            final(self).queue(kind) == old(self).queue(kind).push(cb),
            forall|other: EventKind|
                other != kind ==> #[trigger] final(self).queue(other) == old(self).queue(other),
    {
        match kind {
            EventKind::Ready => {
                self.ready.push(cb);
            },
        }
    }

    /// The handlers registered for `kind`, in the order in which an event of
    /// that kind goes through them.
    pub fn handlers(&self, kind: EventKind) -> (handlers: &Vec<H>)
        ensures
            handlers@ == self.queue(kind),
    {
        match kind {
            EventKind::Ready => &self.ready,
        }
    }
}

} // verus!
