//! Staleness guard for asynchronous listing results.
//!
//! Directory listings are served by a background worker: the caller
//! submits a path and later receives a result on a channel, in request
//! order. A caller that navigates quickly can have several results in
//! flight; it tags every request with a generation number from this
//! coordinator and accepts only results tagged with the newest one, so
//! a stale listing never overwrites a fresh one.

use vstd::prelude::*;

verus! {

/// Issues request generations and recognises the newest one.
pub struct ScanCoordinator {
    next_id: u64,
    current: u64,
}

impl ScanCoordinator {
    /// The generation of the newest request, 0 while none was issued.
    pub closed spec fn current_generation(&self) -> u64 {
        self.current
    }

    /// The generation the next request will get.
    pub closed spec fn next_generation(&self) -> u64 {
        self.next_id
    }

    pub open spec fn wf(&self) -> bool {
        self.current_generation() < self.next_generation()
    }

    /// A fresh coordinator: no request issued yet.
    pub fn new() -> (c: ScanCoordinator)
        ensures
            c.wf(),
            c.current_generation() == 0,
            c.next_generation() == 1,
    {
        ScanCoordinator { next_id: 1, current: 0 }
    }

    /// Whether another generation can still be issued; callers check
    /// this before `issue`.
    pub fn can_issue(&self) -> (r: bool)
        ensures
            r == (self.next_generation() < u64::MAX),
    {
        self.next_id < u64::MAX
    }

    /// Issues the generation for a new request and makes it the newest:
    /// all generations issued before are stale from here on.
    pub fn issue(&mut self) -> (id: u64)
        requires
            old(self).wf(),
            old(self).next_generation() < u64::MAX,
        ensures
            final(self).wf(),
            id == old(self).next_generation(),
            final(self).current_generation() == id,
            final(self).next_generation() == id + 1,
    {
        let id = self.next_id;
        self.current = id;
        self.next_id = id + 1;
        id
    }

    /// Whether a result tagged `id` belongs to the newest request; a
    /// result of any earlier request is rejected.
    pub fn is_current(&self, id: u64) -> (r: bool)
        ensures
            r == (id == self.current_generation()),
    {
        id == self.current
    }
}

} // verus!
