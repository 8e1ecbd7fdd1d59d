//! The shutdown rendezvous: finalizer tasks registered during startup
//! park until termination is signaled, then all run before the process
//! exits. Termination may be requested from several places at once (the
//! message loop ending, an interrupt, a user exit action); signaling is
//! idempotent, so whichever request comes first wins and the rest are
//! no-ops. The threads themselves live in the host; this tracks the
//! rendezvous state they synchronize on.

use vstd::prelude::*;

verus! {

/// State of the shutdown rendezvous: how many finalizer tasks are
/// parked, and whether they have been released.
pub struct Cleanup {
    pub hooks: usize,
    pub released: bool,
}

impl Cleanup {
    /// A fresh rendezvous: no finalizers, not released.
    pub fn new() -> (c: Cleanup)
        ensures
            c.hooks == 0,
            !c.released,
    {
        Cleanup { hooks: 0, released: false }
    }

    /// Register one finalizer task; it parks until release.
    pub fn add(&mut self)
        requires
            old(self).hooks < usize::MAX,
            !old(self).released,
        ensures
            *final(self) == (Cleanup { hooks: (old(self).hooks + 1) as usize, ..*old(self) }),
    {
        self.hooks = self.hooks + 1;
    }

    /// Signal termination and release every parked finalizer.
    /// Idempotent: only the first call out of any number of racing
    /// requests performs the release; the rest change nothing.
    pub fn release(&mut self) -> (first: bool)
        ensures
            *final(self) == (Cleanup { released: true, ..*old(self) }),
            first == !old(self).released,
    {
        let first = !self.released;
        self.released = true;
        first
    }

    /// Join every released finalizer; returns how many there were.
    /// Termination is assumed always eventually requested, so joining
    /// waits only after a release.
    pub fn join_all(&mut self) -> (joined: usize)
        requires
            old(self).released,
        ensures
            *final(self) == (Cleanup { hooks: 0, ..*old(self) }),
            joined == old(self).hooks,
    {
        let joined = self.hooks;
        self.hooks = 0;
        joined
    }
}

} // verus!
