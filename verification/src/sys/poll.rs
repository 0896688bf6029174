//! A selector over `poll`: the array handed to the system call, with free
//! slots reused, and the registrations that map descriptors to their slot
//! and token.
use crate::error::IoError;
use crate::fx::{
    fx_map_contains_key, fx_map_get, fx_map_insert, fx_map_remove, fx_map_try_reserve,
    fx_map_new, FxIntMap,
};
use crate::selector::{
    events_to_interests, interests_to_events, spec_events_to_interests,
    spec_interests_to_events, Event,
};
use crate::socket::RawSocketFd;
use vstd::prelude::*;

verus! {

/// One entry of the `poll` array: a descriptor, the events it watches and
/// those reported. A negative descriptor marks a free slot, which `poll`
/// skips.
#[derive(Debug, Clone, Copy, PartialEq, Eq, Structural)]
pub struct PollFD {
    pub fd: i32,
    pub events: i16,
    pub revents: i16,
}

/// The free slot.
pub open spec fn free_slot() -> PollFD {
    PollFD { fd: -1i32, events: 0i16, revents: 0i16 }
}

impl PollFD {
    /// An entry that watches `events` on `fd`.
    pub fn new(fd: RawSocketFd, events: i16) -> (p: PollFD)
        ensures
            p == (PollFD { fd: fd.inner, events, revents: 0 }),
    {
        PollFD { fd: fd.inner, events, revents: 0 }
    }

    /// Tells whether the slot is free.
    pub fn is_disabled(&self) -> (b: bool)
        ensures
            b == (self.fd < 0),
    {
        self.fd < 0
    }

    /// Makes the slot watch `events` on `fd`.
    pub fn enable(&mut self, fd: RawSocketFd, events: i16)
        ensures
            *final(self) == (PollFD { fd: fd.inner, events, revents: 0 }),
    {
        *self = PollFD::new(fd, events);
    }

    /// Frees the slot.
    pub fn disable(&mut self)
        ensures
            *final(self) == free_slot(),
    {
        *self = PollFD { fd: -1, events: 0, revents: 0 };
    }

    /// Changes the watched events.
    pub fn set_events(&mut self, events: i16)
        ensures
            *final(self) == (PollFD { events, ..*old(self) }),
    {
        self.events = events;
    }

    /// The descriptor.
    pub fn fd(&self) -> (fd: i32)
        ensures
            fd == self.fd,
    {
        self.fd
    }

    /// The reported events.
    pub fn revents(&self) -> (r: i16)
        ensures
            r == self.revents,
    {
        self.revents
    }

    /// The `poll` events that watch for `interests`.
    pub fn interest_to_events(interests: u32) -> (e: i16)
        ensures
            e == spec_interests_to_events(interests),
    {
        interests_to_events(interests)
    }

    /// The interests that the reported events `revents` stand for.
    pub fn events_to_interest(revents: i16) -> (i: u32)
        ensures
            i == spec_events_to_interests(revents),
    {
        events_to_interests(revents)
    }
}

/// `p` is the first free slot of `fds`, or its length when none is free.
pub open spec fn is_first_free(fds: Seq<PollFD>, p: int) -> bool {
    &&& 0 <= p <= fds.len()
    &&& forall|j: int| 0 <= j < p ==> #[trigger] fds[j].fd >= 0
    &&& p < fds.len() ==> fds[p].fd < 0
}

/// Going down from `i`, the position where a run of free slots stops: the
/// first slot at or below `i` that is in use, or the first slot.
pub open spec fn run_start(fds: Seq<PollFD>, i: int) -> int
    decreases i,
{
    if i > 0 && fds[i].fd < 0 {
        run_start(fds, i - 1)
    } else {
        i
    }
}

/// The entries handed to `poll` and the number of them in use. Slot `0`
/// holds the waker and is never freed.
pub struct PollFds {
    active_fds: usize,
    fds: Vec<PollFD>,
}

impl PollFds {
    /// The entries.
    pub closed spec fn fds(&self) -> Seq<PollFD> {
        self.fds@
    }

    /// The number of entries in use.
    pub closed spec fn active(&self) -> usize {
        self.active_fds
    }

    /// No entry, with room for `capacity`; `OutOfMemory` when it cannot be
    /// had.
    pub fn new(capacity: usize) -> (r: Result<Self, IoError>)
        ensures
            match r {
                Ok(p) => p.fds() == Seq::<PollFD>::empty() && p.active() == 0,
                Err(e) => e == IoError::OutOfMemory,
            },
    {
        let mut fds: Vec<PollFD> = Vec::new();
        match fds.try_reserve(capacity) {
            Ok(()) => Ok(PollFds { active_fds: 0, fds }),
            Err(_) => Err(IoError::OutOfMemory),
        }
    }

    /// The number of entries in use.
    pub fn active_fds(&self) -> (n: usize)
        ensures
            n == self.active(),
    {
        self.active_fds
    }

    /// The number of entries, free slots included.
    pub fn len(&self) -> (n: usize)
        ensures
            n == self.fds().len(),
    {
        self.fds.len()
    }

    /// The entry at `index`.
    pub fn get(&self, index: usize) -> (p: PollFD)
        requires
            index < self.fds().len(),
        ensures
            p == self.fds()[index as int],
    {
        self.fds[index]
    }

    /// Watches `interests` on `fd`; returns its slot. With every entry in
    /// use the entry is appended (`OutOfMemory` when there is no room);
    /// otherwise the first free slot is reused.
    pub fn add_fd(&mut self, fd: RawSocketFd, interests: i16) -> (r: Result<usize, IoError>)
        requires
            old(self).active() < usize::MAX,
            old(self).active() != old(self).fds().len() ==> forall|p: int|
                is_first_free(old(self).fds(), p) ==> 0 < p < old(self).active(),
        ensures
            old(self).active() == old(self).fds().len() ==> match r {
                Ok(index) => {
                    &&& index == old(self).fds().len()
                    &&& final(self).fds() == old(self).fds().push(
                        PollFD { fd: fd.inner, events: interests, revents: 0 },
                    )
                    &&& final(self).active() == old(self).active() + 1
                },
                Err(e) => {
                    &&& e == IoError::OutOfMemory
                    &&& final(self).fds() == old(self).fds()
                    &&& final(self).active() == old(self).active()
                },
            },
            old(self).active() != old(self).fds().len() ==> ({
                &&& r is Ok
                &&& is_first_free(old(self).fds(), r->Ok_0 as int)
                &&& final(self).active() == old(self).active() + 1
                &&& final(self).fds() == if r->Ok_0 < old(self).fds().len() {
                    old(self).fds().update(
                        r->Ok_0 as int,
                        PollFD { fd: fd.inner, events: interests, revents: 0 },
                    )
                } else {
                    old(self).fds()
                }
            }),
    {
        let mut index = self.active_fds;
        if self.active_fds == self.fds.len() {
            if self.fds.try_reserve(1).is_err() {
                return Err(IoError::OutOfMemory);
            }
            self.fds.push(PollFD::new(fd, interests));
        } else {
            index = 0;
            let ghost fds0 = self.fds@;
            while index < self.fds.len() && !self.fds[index].is_disabled()
                invariant
                    self.fds@ == fds0,
                    0 <= index <= fds0.len(),
                    forall|j: int| 0 <= j < index ==> #[trigger] fds0[j].fd >= 0,
                decreases fds0.len() - index,
            {
                index = index + 1;
            }
            proof {
                assert(is_first_free(fds0, index as int));
            }
            if index < self.fds.len() {
                let mut slot = self.fds[index];
                slot.enable(fd, interests);
                self.fds.set(index, slot);
            }
        }
        self.active_fds = self.active_fds + 1;
        Ok(index)
    }

    /// Records the events that `poll` reported for slot `index`.
    pub fn set_revents(&mut self, index: usize, revents: i16)
        requires
            index < old(self).fds().len(),
        ensures
            final(self).active() == old(self).active(),
            final(self).fds() == old(self).fds().update(
                index as int,
                PollFD { revents, ..old(self).fds()[index as int] },
            ),
    {
        let mut slot = self.fds[index];
        slot.revents = revents;
        self.fds.set(index, slot);
    }

    /// Changes the events watched in slot `index`.
    pub fn mod_fd(&mut self, index: usize, interests: i16)
        requires
            index < old(self).fds().len(),
        ensures
            final(self).active() == old(self).active(),
            final(self).fds() == old(self).fds().update(
                index as int,
                PollFD { events: interests, ..old(self).fds()[index as int] },
            ),
    {
        let mut slot = self.fds[index];
        slot.set_events(interests);
        self.fds.set(index, slot);
    }

    /// Stops watching slot `index` (never the waker's). When it is the
    /// slot at the count of entries left in use, it is removed together
    /// with the run of free slots just below it; otherwise it becomes a
    /// free slot.
    pub fn rem_fd(&mut self, index: usize)
        requires
            0 < index < old(self).fds().len(),
            old(self).active() > 0,
        ensures
            final(self).active() == old(self).active() - 1,
            index == final(self).active() ==> final(self).fds() == old(self).fds().subrange(
                0,
                run_start(old(self).fds(), index - 1) + 1,
            ) + old(self).fds().subrange(index + 1, old(self).fds().len() as int),
            index != final(self).active() ==> final(self).fds() == old(self).fds().update(
                index as int,
                free_slot(),
            ),
    {
        let ghost fds0 = self.fds@;
        let ghost idx0 = index;
        let mut index = index;
        self.active_fds = self.active_fds - 1;
        if index == self.active_fds {
            self.fds.remove(index);
            index = index - 1;
            proof {
                assert(self.fds@ =~= fds0.subrange(0, index + 1) + fds0.subrange(
                    idx0 + 1,
                    fds0.len() as int,
                ));
            }
            while index > 0 && self.fds[index].is_disabled()
                invariant
                    self.active_fds == idx0,
                    0 <= index < idx0,
                    idx0 < fds0.len(),
                    self.fds@ == fds0.subrange(0, index + 1) + fds0.subrange(
                        idx0 + 1,
                        fds0.len() as int,
                    ),
                    run_start(fds0, idx0 - 1) == run_start(fds0, index as int),
                decreases index,
            {
                let ghost before = self.fds@;
                proof {
                    assert(self.fds@[index as int] == fds0[index as int]);
                }
                self.fds.remove(index);
                index = index - 1;
                proof {
                    assert(self.fds@ =~= fds0.subrange(0, index + 1) + fds0.subrange(
                        idx0 + 1,
                        fds0.len() as int,
                    ));
                }
            }
            proof {
                assert(index == 0 || self.fds@[index as int] == fds0[index as int]);
                assert(run_start(fds0, index as int) == index);
            }
        } else {
            let mut slot = self.fds[index];
            slot.disable();
            self.fds.set(index, slot);
        }
    }
}

/// The two arrays hold the same entries and count the same in use.
pub open spec fn same_pollfds(a: PollFds, b: PollFds) -> bool {
    a.fds() == b.fds() && a.active() == b.active()
}

/// `after` is `before` with slot `index` released: one entry fewer in use;
/// when the slot is the one at the new count in use it is dropped with the
/// run of free slots just below it, otherwise it becomes a free slot.
pub open spec fn slot_released(before: PollFds, after: PollFds, index: usize) -> bool {
    let fds = before.fds();
    let active = before.active() - 1;
    &&& after.active() == active
    &&& index == active ==> after.fds() == fds.subrange(0, run_start(fds, index - 1) + 1)
        + fds.subrange(index + 1, fds.len() as int)
    &&& index != active ==> after.fds() == fds.update(index as int, free_slot())
}

/// The run of free slots below `i` stops at or below `i`, and not below
/// the first slot.
proof fn lemma_run_start_bounds(fds: Seq<PollFD>, i: int)
    requires
        0 <= i,
    ensures
        0 <= run_start(fds, i) <= i,
    decreases i,
{
    if i > 0 && fds[i].fd < 0 {
        lemma_run_start_bounds(fds, i - 1);
    }
}

/// Releasing the slot of a descriptor that no other slot watches leaves no
/// slot watching it, and one entry fewer in use.
pub proof fn law_released_descriptor_unwatched(before: PollFds, after: PollFds, index: usize, fd: i32)
    requires
        0 < index < before.fds().len(),
        before.active() > 0,
        fd >= 0,
        forall|j: int| 0 <= j < before.fds().len() && j != index ==> #[trigger] before.fds()[j].fd != fd,
        slot_released(before, after, index),
    ensures
        after.active() == before.active() - 1,
        forall|i: int| 0 <= i < after.fds().len() ==> #[trigger] after.fds()[i].fd != fd,
{
    let fds = before.fds();
    if index == before.active() - 1 {
        lemma_run_start_bounds(fds, index - 1);
        let k = run_start(fds, index - 1) + 1;
        assert forall|i: int| 0 <= i < after.fds().len() implies #[trigger] after.fds()[i].fd != fd by {
            if i < k {
                assert(after.fds()[i] == fds[i]);
            } else {
                assert(after.fds()[i] == fds[index + 1 + (i - k)]);
            }
        }
    } else {
        assert forall|i: int| 0 <= i < after.fds().len() implies #[trigger] after.fds()[i].fd != fd by {
            if i != index {
                assert(after.fds()[i] == fds[i]);
            }
        }
    }
}

/// `after` is `before` with `entry` added at slot `index`: appended when
/// every entry was in use, else put in the first free slot.
pub open spec fn added_at(before: PollFds, after: PollFds, index: usize, entry: PollFD) -> bool {
    if before.active() == before.fds().len() {
        &&& index == before.fds().len()
        &&& after.fds() == before.fds().push(entry)
    } else {
        &&& is_first_free(before.fds(), index as int)
        &&& after.fds() == if index < before.fds().len() {
            before.fds().update(index as int, entry)
        } else {
            before.fds()
        }
    }
}

/// The events that a scan of `fds` reports, stopping after `n`: one for
/// each entry with reported events, carrying its registration's token.
pub open spec fn reported(fds: Seq<PollFD>, reg: Map<i32, FdEntry>, n: nat) -> Seq<Event>
    decreases fds.len(),
{
    if fds.len() == 0 || n == 0 {
        Seq::empty()
    } else if fds[0].revents != 0 {
        seq![
            Event {
                events: spec_events_to_interests(fds[0].revents),
                token: reg[fds[0].fd].token as u64,
            },
        ] + reported(fds.drop_first(), reg, (n - 1) as nat)
    } else {
        reported(fds.drop_first(), reg, n)
    }
}

/// Every entry that such a scan reports is registered.
pub open spec fn reported_registered(fds: Seq<PollFD>, reg: Map<i32, FdEntry>, n: nat) -> bool
    decreases fds.len(),
{
    if fds.len() == 0 || n == 0 {
        true
    } else if fds[0].revents != 0 {
        reg.contains_key(fds[0].fd) && reported_registered(fds.drop_first(), reg, (n - 1) as nat)
    } else {
        reported_registered(fds.drop_first(), reg, n)
    }
}

/// Where a registered descriptor sits and the token its events carry.
#[derive(Debug, Clone, Copy, PartialEq, Eq, Structural)]
pub struct FdEntry {
    pub index_in_fds: usize,
    pub token: usize,
}

/// The registered descriptors.
pub struct Registration {
    entries: FxIntMap<FdEntry>,
}

impl View for Registration {
    type V = Map<i32, FdEntry>;

    closed spec fn view(&self) -> Map<i32, FdEntry> {
        self.entries@
    }
}

impl Registration {
    /// No registration, with room for `capacity`; `OutOfMemory` when it
    /// cannot be had.
    pub fn new(capacity: usize) -> (r: Result<Self, IoError>)
        ensures
            match r {
                Ok(reg) => reg@ == Map::<i32, FdEntry>::empty(),
                Err(e) => e == IoError::OutOfMemory,
            },
    {
        let mut entries = fx_map_new();
        if !fx_map_try_reserve(&mut entries, capacity) {
            return Err(IoError::OutOfMemory);
        }
        Ok(Registration { entries })
    }
}

/// The `poll` array and the registrations.
pub struct Inner {
    pollfds: PollFds,
    registrations: Registration,
}

impl Inner {
    /// The `poll` array.
    pub closed spec fn pollfds(&self) -> PollFds {
        self.pollfds
    }

    /// The registrations, by descriptor.
    pub closed spec fn registered(&self) -> Map<i32, FdEntry> {
        self.registrations@
    }

    /// Nothing registered, with room for `capacity` descriptors.
    pub fn new(capacity: usize) -> (r: Result<Self, IoError>)
        ensures
            match r {
                Ok(inner) => {
                    &&& inner.registered() == Map::<i32, FdEntry>::empty()
                    &&& inner.pollfds().fds() == Seq::<PollFD>::empty()
                    &&& inner.pollfds().active() == 0
                },
                Err(e) => e == IoError::OutOfMemory,
            },
    {
        let registrations = match Registration::new(capacity) {
            Ok(r) => r,
            Err(e) => return Err(e),
        };
        let pollfds = match PollFds::new(capacity) {
            Ok(p) => p,
            Err(e) => return Err(e),
        };
        Ok(Inner { pollfds, registrations })
    }

    /// Registers `fd` with `token`, watching the `poll` events `interests`.
    /// An invalid descriptor is `InvalidInput`, a registered one
    /// `AlreadyExists`; `OutOfMemory` when there is no room.
    pub fn register(&mut self, fd: RawSocketFd, token: usize, interests: i16) -> (r: Result<(), IoError>)
        requires
            old(self).pollfds().active() < usize::MAX,
            old(self).pollfds().active() != old(self).pollfds().fds().len() ==> forall|p: int|
                is_first_free(old(self).pollfds().fds(), p) ==> 0 < p < old(self).pollfds().active(),
        ensures
            fd.inner < 0 ==> r == Err::<(), IoError>(IoError::InvalidInput) && final(self).registered()
                == old(self).registered() && same_pollfds(final(self).pollfds(), old(self).pollfds()),
            fd.inner >= 0 && old(self).registered().contains_key(fd.inner) ==> r == Err::<(), IoError>(
                IoError::AlreadyExists,
            ) && final(self).registered() == old(self).registered() && same_pollfds(
                final(self).pollfds(),
                old(self).pollfds(),
            ),
            fd.inner >= 0 && !old(self).registered().contains_key(fd.inner) ==> {
                ||| {
                    &&& r == Err::<(), IoError>(IoError::OutOfMemory)
                    &&& final(self).registered() == old(self).registered()
                    &&& same_pollfds(final(self).pollfds(), old(self).pollfds())
                }
                ||| {
                    &&& r == Ok::<(), IoError>(())
                    &&& final(self).pollfds().active() == old(self).pollfds().active() + 1
                    &&& exists|index: usize|
                        added_at(
                            old(self).pollfds(),
                            final(self).pollfds(),
                            index,
                            PollFD { fd: fd.inner, events: interests, revents: 0 },
                        ) && final(self).registered() == old(self).registered().insert(
                            fd.inner,
                            FdEntry { index_in_fds: index, token },
                        )
                }
            },
    {
        if !fd.is_valid() {
            return Err(IoError::InvalidInput);
        }
        if fx_map_contains_key(&self.registrations.entries, fd.inner) {
            return Err(IoError::AlreadyExists);
        }
        if !fx_map_try_reserve(&mut self.registrations.entries, 1) {
            return Err(IoError::OutOfMemory);
        }
        let index = match self.pollfds.add_fd(fd, interests) {
            Ok(index) => index,
            Err(e) => return Err(e),
        };
        fx_map_insert(&mut self.registrations.entries, fd.inner, FdEntry { index_in_fds: index, token });
        proof {
            assert(added_at(
                old(self).pollfds(),
                self.pollfds(),
                index,
                PollFD { fd: fd.inner, events: interests, revents: 0 },
            ));
        }
        Ok(())
    }

    /// Changes the token and the watched `poll` events of the registered
    /// `fd`. An invalid descriptor is `InvalidInput`, an unknown one
    /// `NotFound`.
    pub fn reregister(&mut self, fd: RawSocketFd, token: usize, interests: i16) -> (r: Result<(), IoError>)
        requires
            fd.inner >= 0 && old(self).registered().contains_key(fd.inner) ==> old(
                self,
            ).registered()[fd.inner].index_in_fds < old(self).pollfds().fds().len(),
        ensures
            fd.inner < 0 ==> r == Err::<(), IoError>(IoError::InvalidInput),
            fd.inner >= 0 && !old(self).registered().contains_key(fd.inner) ==> r == Err::<
                (),
                IoError,
            >(IoError::NotFound),
            r is Err ==> final(self).registered() == old(self).registered() && same_pollfds(
                final(self).pollfds(),
                old(self).pollfds(),
            ),
            fd.inner >= 0 && old(self).registered().contains_key(fd.inner) ==> ({
                let e = old(self).registered()[fd.inner];
                &&& r == Ok::<(), IoError>(())
                &&& final(self).registered() == old(self).registered().insert(
                    fd.inner,
                    FdEntry { token, ..e },
                )
                &&& final(self).pollfds().active() == old(self).pollfds().active()
                &&& final(self).pollfds().fds() == old(self).pollfds().fds().update(
                    e.index_in_fds as int,
                    PollFD { events: interests, ..old(self).pollfds().fds()[e.index_in_fds as int] },
                )
            }),
    {
        if !fd.is_valid() {
            return Err(IoError::InvalidInput);
        }
        match fx_map_get(&self.registrations.entries, fd.inner) {
            Some(entry) => {
                fx_map_insert(
                    &mut self.registrations.entries,
                    fd.inner,
                    FdEntry { token, ..entry },
                );
                self.pollfds.mod_fd(entry.index_in_fds, interests);
                Ok(())
            },
            None => Err(IoError::NotFound),
        }
    }

    /// Forgets the registered `fd` and stops watching its slot; an unknown
    /// descriptor is `NotFound`.
    pub fn unregister(&mut self, fd: RawSocketFd) -> (r: Result<(), IoError>)
        requires
            old(self).registered().contains_key(fd.inner) ==> {
                &&& 0 < old(self).registered()[fd.inner].index_in_fds
                &&& old(self).registered()[fd.inner].index_in_fds < old(self).pollfds().fds().len()
                &&& old(self).pollfds().active() > 0
            },
        ensures
            !old(self).registered().contains_key(fd.inner) ==> {
                &&& r == Err::<(), IoError>(IoError::NotFound)
                &&& final(self).registered() == old(self).registered()
                &&& same_pollfds(final(self).pollfds(), old(self).pollfds())
            },
            old(self).registered().contains_key(fd.inner) ==> ({
                let index = old(self).registered()[fd.inner].index_in_fds;
                let before = old(self).pollfds().fds();
                let active = old(self).pollfds().active() - 1;
                &&& r == Ok::<(), IoError>(())
                &&& final(self).registered() == old(self).registered().remove(fd.inner)
                &&& final(self).pollfds().active() == active
                &&& index == active ==> final(self).pollfds().fds() == before.subrange(
                    0,
                    run_start(before, index - 1) + 1,
                ) + before.subrange(index + 1, before.len() as int)
                &&& index != active ==> final(self).pollfds().fds() == before.update(
                    index as int,
                    free_slot(),
                )
                &&& slot_released(old(self).pollfds(), final(self).pollfds(), index)
            }),
    {
        match fx_map_remove(&mut self.registrations.entries, fd.inner) {
            Some(entry) => {
                self.pollfds.rem_fd(entry.index_in_fds);
                Ok(())
            },
            None => Err(IoError::NotFound),
        }
    }

    /// Records the events that `poll` reported for slot `index`.
    pub fn set_revents(&mut self, index: usize, revents: i16)
        requires
            index < old(self).pollfds().fds().len(),
        ensures
            final(self).registered() == old(self).registered(),
            final(self).pollfds().active() == old(self).pollfds().active(),
            final(self).pollfds().fds() == old(self).pollfds().fds().update(
                index as int,
                PollFD { revents, ..old(self).pollfds().fds()[index as int] },
            ),
    {
        self.pollfds.set_revents(index, revents);
    }

    /// The number of slots, free ones included.
    pub fn len(&self) -> (n: usize)
        ensures
            n == self.pollfds().fds().len(),
    {
        self.pollfds.len()
    }

    /// The entry at slot `index`.
    pub fn get(&self, index: usize) -> (p: PollFD)
        requires
            index < self.pollfds().fds().len(),
        ensures
            p == self.pollfds().fds()[index as int],
    {
        self.pollfds.get(index)
    }

    /// Appends to `events` what the last `poll` reported, which counted
    /// `n_events` entries with events: one event per such entry, in slot
    /// order, carrying the token of the entry's registration.
    pub fn collect_events(&self, n_events: usize, events: &mut Vec<Event>)
        requires
            reported_registered(self.pollfds().fds(), self.registered(), n_events as nat),
        ensures
            final(events)@ == old(events)@ + reported(
                self.pollfds().fds(),
                self.registered(),
                n_events as nat,
            ),
    {
        let ghost fds = self.pollfds.fds@;
        let ghost reg = self.registrations@;
        let mut n = n_events;
        let mut j: usize = 0;
        proof {
            assert(fds.subrange(0, fds.len() as int) =~= fds);
        }
        while j < self.pollfds.fds.len() && n > 0
            invariant
                fds == self.pollfds.fds@,
                reg == self.registrations@,
                0 <= j <= fds.len(),
                reported_registered(fds.subrange(j as int, fds.len() as int), reg, n as nat),
                old(events)@ + reported(fds, reg, n_events as nat) == events@ + reported(
                    fds.subrange(j as int, fds.len() as int),
                    reg,
                    n as nat,
                ),
            decreases fds.len() - j,
        {
            let ghost rest = fds.subrange(j as int, fds.len() as int);
            proof {
                assert(rest.drop_first() =~= fds.subrange(j + 1, fds.len() as int));
            }
            let pfd = self.pollfds.fds[j];
            if pfd.revents != 0 {
                let entry = match fx_map_get(&self.registrations.entries, pfd.fd) {
                    Some(e) => e,
                    None => FdEntry { index_in_fds: 0, token: 0 },
                };
                let ghost before = events@;
                events.push(
                    Event { events: events_to_interests(pfd.revents), token: entry.token as u64 },
                );
                proof {
                    let ev = Event {
                        events: spec_events_to_interests(pfd.revents),
                        token: reg[pfd.fd].token as u64,
                    };
                    assert(events@ == before.push(ev));
                    assert(reported(rest, reg, n as nat) == seq![ev] + reported(
                        rest.drop_first(),
                        reg,
                        (n - 1) as nat,
                    ));
                    assert(before + (seq![ev] + reported(rest.drop_first(), reg, (n - 1) as nat))
                        =~= before.push(ev) + reported(rest.drop_first(), reg, (n - 1) as nat));
                }
                n = n - 1;
            }
            j = j + 1;
        }
        proof {
            let rest = fds.subrange(j as int, fds.len() as int);
            assert(reported(rest, reg, n as nat) == Seq::<Event>::empty());
            assert(events@ + Seq::<Event>::empty() =~= events@);
        }
    }
}

/// A selector over `poll`.
pub struct Poll {
    inner: Inner,
}

impl Poll {
    /// The array and the registrations.
    pub closed spec fn inner(&self) -> Inner {
        self.inner
    }

    /// A selector with room for `capacity` descriptors.
    pub fn new(capacity: usize) -> (r: Result<Self, IoError>)
        ensures
            match r {
                Ok(p) => {
                    &&& p.inner().registered() == Map::<i32, FdEntry>::empty()
                    &&& p.inner().pollfds().fds() == Seq::<PollFD>::empty()
                    &&& p.inner().pollfds().active() == 0
                },
                Err(e) => e == IoError::OutOfMemory,
            },
    {
        match Inner::new(capacity) {
            Ok(inner) => Ok(Poll { inner }),
            Err(e) => Err(e),
        }
    }

    /// The array and the registrations.
    pub fn inner_ref(&self) -> (i: &Inner)
        ensures
            *i == self.inner(),
    {
        &self.inner
    }

    /// The array and the registrations, to change.
    pub fn inner_mut(&mut self) -> (i: &mut Inner)
        ensures
            *i == old(self).inner(),
            final(self).inner() == *final(i),
    {
        &mut self.inner
    }

    /// Registers `fd` with `token` for `interests` (see `Inner::register`).
    pub fn register(&mut self, fd: RawSocketFd, token: usize, interests: u32) -> (r: Result<(), IoError>)
        requires
            old(self).inner().pollfds().active() < usize::MAX,
            old(self).inner().pollfds().active() != old(self).inner().pollfds().fds().len()
                ==> forall|p: int|
                is_first_free(old(self).inner().pollfds().fds(), p) ==> 0 < p < old(
                    self,
                ).inner().pollfds().active(),
        ensures
            fd.inner < 0 ==> r == Err::<(), IoError>(IoError::InvalidInput),
            fd.inner >= 0 && old(self).inner().registered().contains_key(fd.inner) ==> r == Err::<
                (),
                IoError,
            >(IoError::AlreadyExists),
            r is Err ==> final(self).inner().registered() == old(self).inner().registered(),
            r is Err ==> same_pollfds(final(self).inner().pollfds(), old(self).inner().pollfds()),
            r is Ok ==> final(self).inner().pollfds().active() == old(self).inner().pollfds().active()
                + 1,
            fd.inner >= 0 && !old(self).inner().registered().contains_key(fd.inner) && r is Err
                ==> r == Err::<(), IoError>(IoError::OutOfMemory) && same_pollfds(
                final(self).inner().pollfds(),
                old(self).inner().pollfds(),
            ),
            r is Ok ==> fd.inner >= 0 && !old(self).inner().registered().contains_key(fd.inner),
            r is Ok ==> exists|index: usize|
                added_at(
                    old(self).inner().pollfds(),
                    final(self).inner().pollfds(),
                    index,
                    PollFD {
                        fd: fd.inner,
                        events: spec_interests_to_events(interests),
                        revents: 0,
                    },
                ) && final(self).inner().registered() == old(self).inner().registered().insert(
                    fd.inner,
                    FdEntry { index_in_fds: index, token },
                ),
    {
        let events = PollFD::interest_to_events(interests);
        let r = self.inner.register(fd, token, events);
        proof {
            if r is Ok {
                let entry = PollFD { fd: fd.inner, events, revents: 0 };
                let index = choose|index: usize|
                    added_at(old(self).inner().pollfds(), self.inner().pollfds(), index, entry)
                        && self.inner().registered() == old(self).inner().registered().insert(
                        fd.inner,
                        FdEntry { index_in_fds: index, token },
                    );
                assert(added_at(old(self).inner().pollfds(), self.inner().pollfds(), index, entry));
            }
        }
        r
    }

    /// Changes the token and interests of the registered `fd` (see
    /// `Inner::reregister`).
    pub fn reregister(&mut self, fd: RawSocketFd, token: usize, interests: u32) -> (r: Result<(), IoError>)
        requires
            fd.inner >= 0 && old(self).inner().registered().contains_key(fd.inner) ==> old(
                self,
            ).inner().registered()[fd.inner].index_in_fds < old(self).inner().pollfds().fds().len(),
        ensures
            fd.inner < 0 ==> r == Err::<(), IoError>(IoError::InvalidInput),
            fd.inner >= 0 && !old(self).inner().registered().contains_key(fd.inner) ==> r == Err::<
                (),
                IoError,
            >(IoError::NotFound),
            r is Err ==> final(self).inner().registered() == old(self).inner().registered()
                && same_pollfds(final(self).inner().pollfds(), old(self).inner().pollfds()),
            r is Ok ==> final(self).inner().pollfds().active() == old(self).inner().pollfds().active(),
            fd.inner >= 0 && old(self).inner().registered().contains_key(fd.inner) ==> ({
                let e = old(self).inner().registered()[fd.inner];
                &&& r == Ok::<(), IoError>(())
                &&& final(self).inner().registered() == old(self).inner().registered().insert(
                    fd.inner,
                    FdEntry { token, ..e },
                )
                &&& final(self).inner().pollfds().fds() == old(self).inner().pollfds().fds().update(
                    e.index_in_fds as int,
                    PollFD {
                        events: spec_interests_to_events(interests),
                        ..old(self).inner().pollfds().fds()[e.index_in_fds as int]
                    },
                )
            }),
    {
        self.inner.reregister(fd, token, PollFD::interest_to_events(interests))
    }

    /// Forgets the registered `fd` (see `Inner::unregister`).
    pub fn unregister(&mut self, fd: RawSocketFd) -> (r: Result<(), IoError>)
        requires
            old(self).inner().registered().contains_key(fd.inner) ==> {
                &&& 0 < old(self).inner().registered()[fd.inner].index_in_fds
                &&& old(self).inner().registered()[fd.inner].index_in_fds < old(
                    self,
                ).inner().pollfds().fds().len()
                &&& old(self).inner().pollfds().active() > 0
            },
        ensures
            r == if old(self).inner().registered().contains_key(fd.inner) {
                Ok::<(), IoError>(())
            } else {
                Err::<(), IoError>(IoError::NotFound)
            },
            final(self).inner().registered() == old(self).inner().registered().remove(fd.inner),
            !old(self).inner().registered().contains_key(fd.inner) ==> same_pollfds(
                final(self).inner().pollfds(),
                old(self).inner().pollfds(),
            ),
            old(self).inner().registered().contains_key(fd.inner) ==> slot_released(
                old(self).inner().pollfds(),
                final(self).inner().pollfds(),
                old(self).inner().registered()[fd.inner].index_in_fds,
            ),
    {
        self.inner.unregister(fd)
    }

    /// The handle of the underlying system selector: `poll` has none.
    pub fn get_native_handle(&self) -> (h: crate::selector::RawSelectorHandle)
        ensures
            h@ == -1,
    {
        crate::selector::RawSelectorHandle::new_invalid()
    }
}

/// Unregistering a descriptor right after registering it into an array
/// whose entries were all in use, the last of them too, gives back the
/// array as it was; the registrations are as they were too.
pub proof fn law_unregister_undoes_register(
    before: PollFds,
    after: PollFds,
    index: usize,
    entry: PollFD,
    restored: Seq<PollFD>,
    reg: Map<i32, FdEntry>,
    token: usize,
)
    requires
        before.active() == before.fds().len(),
        before.fds().len() > 0,
        before.fds()[before.fds().len() - 1].fd >= 0,
        added_at(before, after, index, entry),
        after.active() == before.active() + 1,
        index == after.active() - 1,
        restored == after.fds().subrange(0, run_start(after.fds(), index - 1) + 1)
            + after.fds().subrange(index + 1, after.fds().len() as int),
        !reg.contains_key(entry.fd),
    ensures
        restored == before.fds(),
        reg.insert(entry.fd, FdEntry { index_in_fds: index, token }).remove(entry.fd) == reg,
{
    let b = before.fds();
    assert(after.fds()[index - 1] == b[b.len() - 1]);
    assert(run_start(after.fds(), index - 1) == index - 1);
    assert(restored =~= b);
    assert(reg.insert(entry.fd, FdEntry { index_in_fds: index, token }).remove(entry.fd) =~= reg);
}

} // verus!
