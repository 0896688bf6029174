//! The state a ring keeps between waits: the queue through which other
//! threads hand back completed requests, the timers, and the clock it last
//! read. Waiting on the driver and running the completion callbacks are
//! left to the caller, between `wait_begin` and `wait_end`.
use crate::details::timer_heap::TimerHeap;
use crate::driver::{ring_timer_capacity, DriverConfig};
use crate::error::IoError;
use crate::links::links_ok;
use crate::ready_list::ReadyList;
use crate::request::Request;
use crate::request_queue::{completed_from, RequestQueue};
use vstd::prelude::*;

verus! {

/// The state of a ring.
pub struct RingInner {
    now_ms: u64,
    concurrent: RequestQueue,
    timeouts: TimerHeap,
}

impl RingInner {
    /// The requests completed on other threads and not yet handed back.
    pub closed spec fn concurrent(&self) -> Seq<usize> {
        self.concurrent@
    }

    /// Whether the ring announced that it is about to wait.
    pub closed spec fn parked(&self) -> bool {
        self.concurrent.parked()
    }

    /// The tokens of the scheduled timers.
    pub closed spec fn timers(&self) -> Set<usize> {
        self.timeouts.live()
    }

    /// The clock as last read, in milliseconds.
    pub closed spec fn clock(&self) -> u64 {
        self.now_ms
    }

    /// The queue's and the timers' own bookkeeping holds.
    pub closed spec fn inv(&self) -> bool {
        &&& self.concurrent.inv()
        &&& self.timeouts.wf()
    }

    /// The queue is consistent with the links stored in `reqs`.
    pub open spec fn wf(&self, reqs: Seq<Request>) -> bool {
        &&& self.inv()
        &&& links_ok(reqs, self.concurrent())
    }

    /// A ring for a driver running with `config`, whose clock reads
    /// `now_ms`: nothing queued, no timer, room for as many timers as the
    /// submission queue is deep (at least 64). `OutOfMemory` when the
    /// timers cannot get their room.
    pub fn new(config: &DriverConfig, now_ms: u64) -> (r: Result<Self, IoError>)
        ensures
            match r {
                Ok(ring) => {
                    &&& ring.inv()
                    &&& ring.concurrent() == Seq::<usize>::empty()
                    &&& !ring.parked()
                    &&& ring.timers() == Set::<usize>::empty()
                    &&& ring.clock() == now_ms
                },
                Err(e) => e == IoError::OutOfMemory,
            },
    {
        let timer_capacity = ring_timer_capacity(config);
        let timeouts = match TimerHeap::new(timer_capacity) {
            Ok(t) => t,
            Err(e) => return Err(e),
        };
        let concurrent = RequestQueue::new();
        Ok(RingInner { now_ms, concurrent, timeouts })
    }

    /// Records that the clock now reads `now_ms`; returns it.
    pub fn update_now(&mut self, now_ms: u64) -> (r: u64)
        ensures
            r == now_ms,
            final(self).clock() == now_ms,
            final(self).concurrent() == old(self).concurrent(),
            final(self).parked() == old(self).parked(),
            final(self).timers() == old(self).timers(),
            old(self).inv() ==> final(self).inv(),
    {
        self.now_ms = now_ms;
        now_ms
    }

    /// The clock as last read.
    pub fn now(&self) -> (r: u64)
        ensures
            r == self.clock(),
    {
        self.now_ms
    }

    /// Starts a wait of `timeout_ms` milliseconds (forever when negative):
    /// returns the timeout the driver may wait, `timeout_ms`, or `0` when
    /// completed requests are already queued (or the ring is already
    /// parked). A wait of `0` does not park.
    pub fn wait_begin(&mut self, timeout_ms: i32) -> (t: i32)
        requires
            old(self).inv(),
        ensures
            final(self).inv(),
            final(self).concurrent() == old(self).concurrent(),
            final(self).timers() == old(self).timers(),
            final(self).clock() == old(self).clock(),
            t == if old(self).concurrent().len() == 0 && !old(self).parked() {
                timeout_ms
            } else {
                0
            },
            final(self).parked() == (old(self).parked() || (timeout_ms != 0
                && old(self).concurrent().len() == 0 && !old(self).parked())),
    {
        self.concurrent.park_begin(timeout_ms)
    }

    /// Ends a wait: the requests completed on other threads go, in the order
    /// they completed, to the back of `ready`, each taking its concurrent
    /// status; returns the number of requests `ready` then holds.
    pub fn wait_end(&mut self, reqs: &mut Vec<Request>, ready: &mut ReadyList) -> (n: i32)
        requires
            old(self).wf(old(reqs)@),
            old(ready).wf(old(reqs)@),
            forall|k: usize| !(old(self).concurrent().contains(k) && old(ready)@.contains(k)),
        ensures
            final(self).wf(final(reqs)@),
            final(self).concurrent() == Seq::<usize>::empty(),
            !final(self).parked(),
            final(self).timers() == old(self).timers(),
            final(self).clock() == old(self).clock(),
            final(ready).wf(final(reqs)@),
            final(ready)@ == old(ready)@ + old(self).concurrent().reverse(),
            n == final(ready)@.len() as i32,
            forall|j: int|
                0 <= j < old(reqs)@.len() && old(self).concurrent().contains(j as usize)
                    ==> completed_from(old(reqs)@[j]@, #[trigger] final(reqs)@[j]@),
            forall|j: int|
                0 <= j < old(reqs)@.len() && !old(self).concurrent().contains(j as usize) ==> (
                #[trigger] final(reqs)@[j])@.same_payload(old(reqs)@[j]@),
    {
        self.concurrent.park_end(reqs, ready);
        ready.len() as i32
    }
}

} // verus!
