//! Readiness interests and selector handles.
use vstd::prelude::*;

verus! {

/// Readable interest or event.
pub const INTEREST_READABLE: u32 = 0x001;
/// Priority interest or event.
pub const INTEREST_PRIORITY: u32 = 0x002;
/// Writable interest or event.
pub const INTEREST_WRITABLE: u32 = 0x004;
/// Error event.
pub const INTEREST_ERROR: u32 = 0x008;
/// Hang-up event (peer closed its end of the channel).
pub const INTEREST_HANG_UP: u32 = 0x010;
/// Stream socket peer closed connection, or shut down writing half of connection.
pub const INTEREST_RDHANG_UP: u32 = 0x2000;
/// Report the event once, then disarm.
pub const INTEREST_ONESHOT: u32 = 0x4000_0000;

/// `poll` input event: data to read.
pub const POLLIN: i16 = 0x001;
/// `poll` input event: urgent data to read.
pub const POLLPRI: i16 = 0x002;
/// `poll` input event: writing is possible.
pub const POLLOUT: i16 = 0x004;
/// `poll` output event: error.
pub const POLLERR: i16 = 0x008;
/// `poll` output event: hang up.
pub const POLLHUP: i16 = 0x010;

/// The `poll` events that watch for the given interests: readable,
/// writable and priority map to `POLLIN`, `POLLOUT` and `POLLPRI`.
pub open spec fn spec_interests_to_events(interests: u32) -> i16 {
    (if interests & INTEREST_READABLE != 0 { POLLIN } else { 0i16 }) | (if interests
        & INTEREST_WRITABLE != 0 {
        POLLOUT
    } else {
        0i16
    }) | (if interests & INTEREST_PRIORITY != 0 { POLLPRI } else { 0i16 })
}

/// The `poll` events that watch for the given interests.
pub fn interests_to_events(interests: u32) -> (events: i16)
    ensures
        events == spec_interests_to_events(interests),
{
    let mut events: i16 = 0;
    let r = if (interests & INTEREST_READABLE) != 0 { POLLIN } else { 0i16 };
    events = events | r;
    let w = if (interests & INTEREST_WRITABLE) != 0 { POLLOUT } else { 0i16 };
    events = events | w;
    let p = if (interests & INTEREST_PRIORITY) != 0 { POLLPRI } else { 0i16 };
    events = events | p;
    proof {
        assert(0i16 | r == r) by (bit_vector);
    }
    events
}

/// A native selector handle (a file descriptor, `-1` when invalid).
#[derive(Debug, Clone, Copy)]
pub struct RawSelectorHandle {
    raw: i32,
}

impl View for RawSelectorHandle {
    type V = i32;

    /// The raw descriptor.
    closed spec fn view(&self) -> i32 {
        self.raw
    }
}

impl RawSelectorHandle {
    /// Wraps `raw`; any negative value becomes `-1`.
    pub fn new(raw: i32) -> (h: Self)
        ensures
            h@ == if raw < 0 { -1i32 } else { raw },
    {
        Self { raw: if raw < 0 { -1 } else { raw } }
    }

    /// The invalid handle.
    pub fn new_invalid() -> (h: Self)
        ensures
            h@ == -1,
    {
        Self { raw: -1 }
    }

    /// Tells whether the handle is not the invalid one.
    pub fn is_valid(&self) -> (b: bool)
        ensures
            b == (self@ != -1),
    {
        self.raw != -1
    }

    /// The raw descriptor.
    pub fn raw(&self) -> (r: i32)
        ensures
            r == self@,
    {
        self.raw
    }
}

/// A readiness event: the events that occurred and the token given when
/// the descriptor was registered.
#[derive(Debug, Clone, Copy, PartialEq, Eq, Structural)]
pub struct Event {
    pub events: u32,
    pub token: u64,
}

/// The interests that `poll` output events report: the inverse of
/// `spec_interests_to_events`, plus error and hang-up.
pub open spec fn spec_events_to_interests(revents: i16) -> u32 {
    (if revents & POLLIN != 0 { INTEREST_READABLE } else { 0u32 }) | (if revents & POLLOUT != 0 {
        INTEREST_WRITABLE
    } else {
        0u32
    }) | (if revents & POLLPRI != 0 { INTEREST_PRIORITY } else { 0u32 }) | (if revents & POLLERR
        != 0 {
        INTEREST_ERROR
    } else {
        0u32
    }) | (if revents & POLLHUP != 0 { INTEREST_HANG_UP } else { 0u32 })
}

/// The interests that `poll` output events report.
pub fn events_to_interests(revents: i16) -> (interests: u32)
    ensures
        interests == spec_events_to_interests(revents),
{
    let r = if (revents & POLLIN) != 0 { INTEREST_READABLE } else { 0u32 };
    let w = if (revents & POLLOUT) != 0 { INTEREST_WRITABLE } else { 0u32 };
    let p = if (revents & POLLPRI) != 0 { INTEREST_PRIORITY } else { 0u32 };
    let e = if (revents & POLLERR) != 0 { INTEREST_ERROR } else { 0u32 };
    let h = if (revents & POLLHUP) != 0 { INTEREST_HANG_UP } else { 0u32 };
    r | w | p | e | h
}

/// An empty selector.
pub struct Selector {}

/// Reading back the `poll` events that watch for some interests gives the
/// readable, writable and priority interests among them.
pub proof fn law_interests_round_trip(interests: u32)
    ensures
        spec_events_to_interests(spec_interests_to_events(interests)) == interests & (
        INTEREST_READABLE | INTEREST_WRITABLE | INTEREST_PRIORITY),
{
    let e = spec_interests_to_events(interests);
    assert(e & POLLIN != 0 <==> interests & INTEREST_READABLE != 0) by (bit_vector)
        requires
            e == (if interests & 1u32 != 0 { 1i16 } else { 0i16 }) | (if interests & 4u32 != 0 {
                4i16
            } else {
                0i16
            }) | (if interests & 2u32 != 0 { 2i16 } else { 0i16 }),
    ;
    assert(e & POLLOUT != 0 <==> interests & INTEREST_WRITABLE != 0) by (bit_vector)
        requires
            e == (if interests & 1u32 != 0 { 1i16 } else { 0i16 }) | (if interests & 4u32 != 0 {
                4i16
            } else {
                0i16
            }) | (if interests & 2u32 != 0 { 2i16 } else { 0i16 }),
    ;
    assert(e & POLLPRI != 0 <==> interests & INTEREST_PRIORITY != 0) by (bit_vector)
        requires
            e == (if interests & 1u32 != 0 { 1i16 } else { 0i16 }) | (if interests & 4u32 != 0 {
                4i16
            } else {
                0i16
            }) | (if interests & 2u32 != 0 { 2i16 } else { 0i16 }),
    ;
    assert(e & POLLERR == 0 && e & POLLHUP == 0) by (bit_vector)
        requires
            e == (if interests & 1u32 != 0 { 1i16 } else { 0i16 }) | (if interests & 4u32 != 0 {
                4i16
            } else {
                0i16
            }) | (if interests & 2u32 != 0 { 2i16 } else { 0i16 }),
    ;
    assert((if interests & 1u32 != 0 { 1u32 } else { 0u32 }) | (if interests & 4u32 != 0 {
        4u32
    } else {
        0u32
    }) | (if interests & 2u32 != 0 { 2u32 } else { 0u32 }) | 0u32 | 0u32 == interests & (1u32 | 4u32
        | 2u32)) by (bit_vector);
}

} // verus!
