//! Outbox of the networked-performance bridge: transient gesture events
//! recorded on the performer while broadcasting, drained by the page.
use vstd::prelude::*;

verus! {

/// Most events buffered between two drains.
pub const OUTBOX_CAP: usize = 96;

/// Bounded buffer of gesture events awaiting broadcast; recording is a no-op
/// until broadcasting is enabled.
pub struct Outbox<T> {
    events: Vec<T>,
    broadcasting: bool,
    cap: usize,
}

impl<T> Outbox<T> {
    /// Buffered events, oldest first.
    pub closed spec fn events(&self) -> Seq<T> {
        self.events@
    }

    /// Whether recording is enabled.
    pub closed spec fn armed(&self) -> bool {
        self.broadcasting
    }

    /// Most events kept between drains.
    pub closed spec fn capacity(&self) -> nat {
        self.cap as nat
    }

    /// The buffer never holds more than its capacity.
    pub closed spec fn wf(&self) -> bool {
        self.events@.len() <= self.cap
    }

    /// An empty, disarmed outbox holding at most `cap` events.
    pub fn new(cap: usize) -> (r: Self)
        ensures
            r.wf(),
            r.events() == Seq::<T>::empty(),
            !r.armed(),
            r.capacity() == cap,
    {
        Outbox { events: Vec::new(), broadcasting: false, cap }
    }

    /// Arm recording (once the broadcast channel is up).
    pub fn enable_broadcast(&mut self)
        requires
            old(self).wf(),
        ensures
            final(self).wf(),
            final(self).armed(),
            final(self).events() == old(self).events(),
            final(self).capacity() == old(self).capacity(),
    {
        self.broadcasting = true;
    }

    /// Whether recording is enabled.
    pub fn is_broadcasting(&self) -> (r: bool)
        ensures
            r == self.armed(),
    {
        self.broadcasting
    }

    /// Number of buffered events.
    pub fn len(&self) -> (r: usize)
        ensures
            r as nat == self.events().len(),
    {
        self.events.len()
    }

    /// Record `ev` when armed and not full; otherwise drop it. Returns whether
    /// it was recorded.
    pub fn push(&mut self, ev: T) -> (recorded: bool)
        requires
            old(self).wf(),
        ensures
            final(self).wf(),
            recorded == (old(self).armed() && old(self).events().len() < old(self).capacity()),
            final(self).events() == if recorded {
                old(self).events().push(ev)
            } else {
                old(self).events()
            },
            final(self).armed() == old(self).armed(),
            final(self).capacity() == old(self).capacity(),
    {
        if !self.broadcasting {
            return false;
        }
        if self.events.len() < self.cap {
            self.events.push(ev);
            true
        } else {
            false
        }
    }

    /// Take every buffered event, oldest first, leaving the outbox empty.
    pub fn drain(&mut self) -> (r: Vec<T>)
        requires
            old(self).wf(),
        ensures
            final(self).wf(),
            r@ == old(self).events(),
            final(self).events() == Seq::<T>::empty(),
            final(self).armed() == old(self).armed(),
            final(self).capacity() == old(self).capacity(),
    {
        let mut taken: Vec<T> = Vec::new();
        std::mem::swap(&mut taken, &mut self.events);
        taken
    }
}

} // verus!
