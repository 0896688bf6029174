//! A 4-ary min-heap of timer deadlines with lazy deletion.
//!
//! Removed tokens stay in the heap as "tombstones" until they reach the
//! root, where they are discarded; the set of live tokens decides which
//! entries still count.
use crate::error::IoError;
use crate::fx::{
    fx_set_contains, fx_set_insert, fx_set_is_empty, fx_set_len, fx_set_remove,
    fx_set_try_reserve, fx_set_new,
};
use rustc_hash::FxHashSet;
use vstd::prelude::*;

verus! {

/// One scheduled deadline.
#[derive(Debug, Clone, Copy)]
pub struct Entry {
    pub deadline: u64,
    pub token: usize,
}

/// The longest heap a `Vec<Entry>` can hold: `isize::MAX` bytes of 16-byte
/// entries, the bound past which `Vec::try_reserve` always fails.
pub const MAX_ENTRIES: usize = usize::MAX / 32;

/// The parent position of position `i > 0` in a 4-ary heap.
pub open spec fn parent(i: int) -> int {
    (i - 1) / 4
}

/// Every entry's deadline is at least its parent's.
pub open spec fn heap_ordered(s: Seq<Entry>) -> bool {
    forall|i: int| 0 < i < s.len() ==> s[parent(i)].deadline <= #[trigger] s[i].deadline
}

/// Heap order holds except between `k` and its children; the parent of `k`
/// (if any) is still no later than the children of `k`.
pub open spec fn heap_ordered_below(s: Seq<Entry>, k: int) -> bool {
    &&& forall|i: int|
        0 < i < s.len() && parent(i) != k ==> s[parent(i)].deadline <= #[trigger] s[i].deadline
    &&& (0 < k < s.len() ==> forall|i: int|
        0 < i < s.len() && parent(i) == k ==> s[parent(k)].deadline <= #[trigger] s[i].deadline)
}

/// Heap order holds except between `k` and its parent; the parent of `k`
/// (if any) is still no later than the children of `k`.
pub open spec fn heap_ordered_above(s: Seq<Entry>, k: int) -> bool {
    &&& forall|i: int| 0 < i < s.len() && i != k ==> s[parent(i)].deadline <= #[trigger] s[i].deadline
    &&& (0 < k < s.len() ==> forall|i: int|
        0 < i < s.len() && parent(i) == k ==> s[parent(k)].deadline <= #[trigger] s[i].deadline)
}

/// `a` and `b` hold the same entries (regardless of position or repetition).
pub open spec fn same_elements(a: Seq<Entry>, b: Seq<Entry>) -> bool {
    forall|e: Entry| a.contains(e) <==> b.contains(e)
}

/// Some entry of `s` carries `token`.
pub open spec fn has_token(s: Seq<Entry>, token: usize) -> bool {
    exists|i: int| 0 <= i < s.len() && #[trigger] s[i].token == token
}

/// The spec of swapping two positions.
pub open spec fn swapped(s: Seq<Entry>, i: int, j: int) -> Seq<Entry> {
    s.update(i, s[j]).update(j, s[i])
}

proof fn lemma_swapped_same_elements(s: Seq<Entry>, i: int, j: int)
    requires
        0 <= i < s.len(),
        0 <= j < s.len(),
    ensures
        same_elements(s, swapped(s, i, j)),
        swapped(s, i, j).len() == s.len(),
{
    let t = swapped(s, i, j);
    assert forall|e: Entry| s.contains(e) <==> t.contains(e) by {
        if s.contains(e) {
            let k = choose|k: int| 0 <= k < s.len() && s[k] == e;
            if k == i {
                assert(t[j] == e);
            } else if k == j {
                assert(t[i] == e);
            } else {
                assert(t[k] == e);
            }
        }
        if t.contains(e) {
            let k = choose|k: int| 0 <= k < t.len() && t[k] == e;
            if k == i {
                assert(s[j] == e);
            } else if k == j {
                assert(s[i] == e);
            } else {
                assert(s[k] == e);
            }
        }
    }
}

/// The root of a heap-ordered sequence has the earliest deadline.
pub proof fn lemma_root_is_min(s: Seq<Entry>, i: int)
    requires
        heap_ordered(s),
        0 <= i < s.len(),
    ensures
        s[0].deadline <= s[i].deadline,
    decreases i,
{
    if i > 0 {
        lemma_root_is_min(s, parent(i));
    }
}

proof fn lemma_down_step(s: Seq<Entry>, k: int, m: int)
    requires
        heap_ordered_below(s, k),
        0 <= k < m < s.len(),
        parent(m) == k,
        s[m].deadline < s[k].deadline,
        forall|c: int| 0 < c < s.len() && parent(c) == k ==> s[m].deadline <= #[trigger] s[c].deadline,
    ensures
        heap_ordered_below(swapped(s, k, m), m),
{
    let t = swapped(s, k, m);
    assert forall|i: int| 0 < i < t.len() && parent(i) != m implies t[parent(i)].deadline
        <= #[trigger] t[i].deadline by {
        if i == m {
        } else if i == k {
            assert(parent(k) < k);
            assert(s[parent(k)].deadline <= s[m].deadline);
        } else if parent(i) == k {
            assert(s[m].deadline <= s[i].deadline);
        } else {
            assert(s[parent(i)].deadline <= s[i].deadline);
        }
    }
    assert forall|i: int| 0 < i < t.len() && parent(i) == m implies t[parent(m)].deadline
        <= #[trigger] t[i].deadline by {
        assert(s[parent(i)].deadline <= s[i].deadline);
    }
}

proof fn lemma_down_done(s: Seq<Entry>, k: int)
    requires
        heap_ordered_below(s, k),
        0 <= k < s.len(),
        forall|c: int| 0 < c < s.len() && parent(c) == k ==> s[k].deadline <= #[trigger] s[c].deadline,
    ensures
        heap_ordered(s),
{
    assert forall|i: int| 0 < i < s.len() implies s[parent(i)].deadline <= #[trigger] s[i].deadline by {
        if parent(i) == k {
        }
    }
}

proof fn lemma_up_step(s: Seq<Entry>, k: int, p: int)
    requires
        heap_ordered_above(s, k),
        0 <= p < k < s.len(),
        parent(k) == p,
        s[k].deadline < s[p].deadline,
    ensures
        heap_ordered_above(swapped(s, k, p), p),
{
    let t = swapped(s, k, p);
    assert forall|i: int| 0 < i < t.len() && i != p implies t[parent(i)].deadline
        <= #[trigger] t[i].deadline by {
        if i == k {
        } else if parent(i) == p {
            assert(s[parent(i)].deadline <= s[i].deadline);
        } else if parent(i) == k {
            assert(s[parent(k)].deadline <= s[i].deadline);
        } else {
            assert(s[parent(i)].deadline <= s[i].deadline);
        }
    }
    if 0 < p {
        assert forall|i: int| 0 < i < t.len() && parent(i) == p implies t[parent(p)].deadline
            <= #[trigger] t[i].deadline by {
            assert(s[parent(p)].deadline <= s[p].deadline);
            if i != k {
                assert(s[parent(i)].deadline <= s[i].deadline);
            }
        }
    }
}

/// Swapping the root with the last entry and dropping the last one keeps
/// heap order below the root and every entry but the old root.
proof fn lemma_truncated_swap(s: Seq<Entry>, w: Seq<Entry>, t: Seq<Entry>, n: int)
    requires
        heap_ordered(s),
        0 <= n,
        s.len() == n + 1,
        w == swapped(s, 0, n),
        t == w.subrange(0, n),
    ensures
        heap_ordered_below(t, 0),
        forall|e: Entry| t.contains(e) ==> s.contains(e),
        forall|e: Entry| s.contains(e) && e != s[0] ==> t.contains(e),
{
    lemma_swapped_same_elements(s, 0, n);
    assert forall|i: int| 0 < i < t.len() && parent(i) != 0 implies t[parent(i)].deadline
        <= #[trigger] t[i].deadline by {
        assert(s[parent(i)].deadline <= s[i].deadline);
    }
    assert forall|e: Entry| t.contains(e) implies s.contains(e) by {
        let k = choose|k: int| 0 <= k < t.len() && t[k] == e;
        assert(w[k] == e);
        assert(w.contains(e));
    }
    assert forall|e: Entry| s.contains(e) && e != s[0] implies t.contains(e) by {
        assert(w.contains(e));
        let k = choose|k: int| 0 <= k < w.len() && w[k] == e;
        assert(k != n);
        assert(t[k] == e);
    }
}

fn swap_entries(v: &mut Vec<Entry>, i: usize, j: usize)
    requires
        i < old(v).len(),
        j < old(v).len(),
    ensures
        final(v)@ == swapped(old(v)@, i as int, j as int),
{
    let a = v[i];
    let b = v[j];
    v.set(i, b);
    v.set(j, a);
}

/// The answer to scheduling `token` in a heap whose scheduled tokens are
/// `live` and which stores `stored` entries, tombstones included, when
/// `room` tells whether room for one more timer could be had.
pub open spec fn spec_push_outcome(live: Set<usize>, stored: nat, token: usize, room: bool) -> Result<(), IoError> {
    if live.contains(token) {
        Err(IoError::AlreadyExists)
    } else if stored >= MAX_ENTRIES || !room {
        Err(IoError::OutOfMemory)
    } else {
        Ok(())
    }
}

/// Scheduling a token succeeds exactly when it is not scheduled yet, room
/// could be had and the heap is below its limit; a scheduled token is
/// always `AlreadyExists`, and `OutOfMemory` comes only from a lack of room
/// or the limit.
pub proof fn law_push_refused_only_for_duplicates_or_memory(
    live: Set<usize>,
    stored: nat,
    token: usize,
    room: bool,
)
    ensures
        (spec_push_outcome(live, stored, token, room) == Ok::<(), IoError>(())) <==> (!live.contains(
            token,
        ) && room && stored < MAX_ENTRIES),
        (spec_push_outcome(live, stored, token, room) == Err::<(), IoError>(IoError::AlreadyExists))
            <==> live.contains(token),
        (spec_push_outcome(live, stored, token, room) == Err::<(), IoError>(IoError::OutOfMemory))
            <==> (!live.contains(token) && (!room || stored >= MAX_ENTRIES)),
{
}

/// The tombstones that removals leave never decide a push: two heaps with
/// the same scheduled tokens, both below the limit of stored entries, give
/// the same answer whatever number of entries each stores.
pub proof fn law_tombstones_never_refuse_a_push(
    live: Set<usize>,
    stored: nat,
    other_stored: nat,
    token: usize,
    room: bool,
)
    requires
        stored < MAX_ENTRIES,
        other_stored < MAX_ENTRIES,
    ensures
        spec_push_outcome(live, stored, token, room) == spec_push_outcome(
            live,
            other_stored,
            token,
            room,
        ),
{
}

/// A heap of (deadline, token) entries, ordered by deadline.
pub struct TimerHeap {
    tokens: FxHashSet<usize>,
    entries: Vec<Entry>,
}

impl TimerHeap {
    /// The tokens that are scheduled.
    pub closed spec fn live(&self) -> Set<usize> {
        self.tokens@
    }

    /// The stored entries, tombstones included, in heap order.
    pub closed spec fn entries(&self) -> Seq<Entry> {
        self.entries@
    }

    /// The entry at the root of the heap.
    pub closed spec fn head(&self) -> Entry {
        self.entries@[0]
    }

    pub closed spec fn wf(&self) -> bool {
        &&& self.tokens@.finite()
        &&& heap_ordered(self.entries@)
        &&& self.entries@.len() <= MAX_ENTRIES
        &&& forall|t: usize| self.tokens@.contains(t) ==> has_token(self.entries@, t)
        &&& self.entries@.len() > 0 ==> self.tokens@.contains(self.entries@[0].token)
    }

    /// `(deadline, token)` is a stored entry of a live token and no stored
    /// entry is due before `deadline`.
    pub open spec fn is_earliest(&self, deadline: u64, token: usize) -> bool {
        &&& self.live().contains(token)
        &&& self.entries().contains(Entry { deadline, token })
        &&& forall|i: int| 0 <= i < self.entries().len() ==> deadline <= #[trigger] self.entries()[i].deadline
    }

    /// What a removal keeps: no new entry appears, and every entry of a
    /// token that is still live stays.
    pub open spec fn keeps_live_entries(&self, before: &TimerHeap) -> bool {
        &&& forall|e: Entry| self.entries().contains(e) ==> before.entries().contains(e)
        &&& forall|e: Entry|
            before.entries().contains(e) && self.live().contains(e.token) ==> self.entries().contains(e)
    }

    /// The head of a well-formed non-empty heap is its earliest live entry.
    pub proof fn lemma_head_is_earliest(&self)
        requires
            self.wf(),
            self.live() != Set::<usize>::empty(),
        ensures
            self.is_earliest(self.head().deadline, self.head().token),
    {
        self.lemma_nonempty();
        let s = self.entries@;
        assert(s[0] == Entry { deadline: s[0].deadline, token: s[0].token });
        assert(s.contains(s[0]));
        assert forall|i: int| 0 <= i < s.len() implies s[0].deadline <= #[trigger] s[i].deadline by {
            lemma_root_is_min(s, i);
        }
    }

    /// Creates an empty heap with room for `capacity` timers.
    pub fn new(capacity: usize) -> (r: Result<Self, IoError>)
        ensures
            match r {
                Ok(th) => th.wf() && th.live() == Set::<usize>::empty() && th.entries().len() == 0,
                Err(e) => e == IoError::OutOfMemory,
            },
    {
        let mut tokens = fx_set_new();
        if !fx_set_try_reserve(&mut tokens, capacity) {
            return Err(IoError::OutOfMemory);
        }
        let mut entries: Vec<Entry> = Vec::new();
        if entries.try_reserve(capacity).is_err() {
            return Err(IoError::OutOfMemory);
        }
        Ok(TimerHeap { tokens, entries })
    }

    /// The number of scheduled tokens.
    pub fn len(&self) -> (n: usize)
        requires
            self.wf(),
        ensures
            n == self.live().len(),
    {
        fx_set_len(&self.tokens)
    }

    /// Schedules `token` at `deadline`. A token that is already scheduled
    /// is `AlreadyExists`, whatever memory is left; `OutOfMemory` when no
    /// room can be had for a new one.
    pub fn push(&mut self, token: usize, deadline: u64) -> (r: Result<(), IoError>)
        requires
            old(self).wf(),
        ensures
            final(self).wf(),
            match r {
                Ok(()) => {
                    &&& !old(self).live().contains(token)
                    &&& final(self).live() == old(self).live().insert(token)
                    &&& same_elements(
                        final(self).entries(),
                        old(self).entries().push(Entry { deadline, token }),
                    )
                },
                Err(IoError::AlreadyExists) => {
                    &&& old(self).live().contains(token)
                    &&& final(self).live() == old(self).live()
                    &&& final(self).entries() == old(self).entries()
                },
                Err(IoError::OutOfMemory) => {
                    &&& final(self).live() == old(self).live()
                    &&& final(self).entries() == old(self).entries()
                },
                Err(_) => false,
            },
            old(self).live().contains(token) <==> r == Err::<(), IoError>(IoError::AlreadyExists),
    {
        if fx_set_contains(&self.tokens, token) {
            return Err(IoError::AlreadyExists);
        }
        let room = self.entries.try_reserve(1).is_ok() && fx_set_try_reserve(&mut self.tokens, 1);
        self.push_with_room(token, deadline, room)
    }

    /// Schedules `token` at `deadline` as `push` does, where `room` tells
    /// whether room for one more timer could be had. A scheduled token is
    /// `AlreadyExists`; otherwise only a lack of room (or a heap at its
    /// limit of stored entries) is `OutOfMemory`.
    pub fn push_with_room(&mut self, token: usize, deadline: u64, room: bool) -> (r: Result<(), IoError>)
        requires
            old(self).wf(),
        ensures
            final(self).wf(),
            r == spec_push_outcome(old(self).live(), old(self).entries().len(), token, room),
            r is Ok ==> {
                &&& final(self).live() == old(self).live().insert(token)
                &&& same_elements(
                    final(self).entries(),
                    old(self).entries().push(Entry { deadline, token }),
                )
            },
            r is Err ==> {
                &&& final(self).live() == old(self).live()
                &&& final(self).entries() == old(self).entries()
            },
    {
        if fx_set_contains(&self.tokens, token) {
            Err(IoError::AlreadyExists)
        } else if self.entries.len() >= MAX_ENTRIES || !room {
            Err(IoError::OutOfMemory)
        } else if !fx_set_insert(&mut self.tokens, token) {
            Err(IoError::AlreadyExists)
        } else {
            let index = self.entries.len();
            let ghost before = self.entries@;
            self.entries.push(Entry { deadline, token });
            proof {
                let s = self.entries@;
                assert(s == before.push(Entry { deadline, token }));
                assert forall|t: usize| self.tokens@.contains(t) implies has_token(s, t) by {
                    if t == token {
                        assert(s[index as int].token == token);
                    } else {
                        assert(old(self).tokens@.contains(t));
                        let k = choose|k: int| 0 <= k < before.len() && #[trigger] before[k].token == t;
                        assert(s[k].token == t);
                    }
                }
                assert forall|e: Entry| s.contains(e) <==> before.push(Entry { deadline, token }).contains(e) by {}
                assert(heap_ordered_above(s, index as int));
            }
            self.restore_up(index);
            proof {
                let s = before.push(Entry { deadline, token });
                assert forall|t: usize| self.tokens@.contains(t) implies has_token(self.entries@, t) by {
                    assert(has_token(s, t));
                    let k = choose|k: int| 0 <= k < s.len() && #[trigger] s[k].token == t;
                    assert(s.contains(s[k]));
                    assert(self.entries@.contains(s[k]));
                    let j = choose|j: int| 0 <= j < self.entries@.len() && self.entries@[j] == s[k];
                    assert(self.entries@[j].token == t);
                }
            }
            Ok(())
        }
    }


    /// A non-empty live set means a non-empty heap.
    proof fn lemma_nonempty(&self)
        requires
            self.wf(),
            self.live() != Set::<usize>::empty(),
        ensures
            self.entries@.len() > 0,
    {
        if self.entries@.len() == 0 {
            assert forall|t: usize| !self.tokens@.contains(t) by {
                if self.tokens@.contains(t) {
                    assert(has_token(self.entries@, t));
                }
            }
            assert(self.tokens@ =~= Set::<usize>::empty());
        }
    }

    /// Moves the entry at `index` towards the root until its parent is due
    /// no later than it.
    fn restore_up(&mut self, index: usize)
        requires
            index < old(self).entries@.len(),
            heap_ordered_above(old(self).entries@, index as int),
        ensures
            final(self).tokens@ == old(self).tokens@,
            final(self).entries@.len() == old(self).entries@.len(),
            heap_ordered(final(self).entries@),
            same_elements(final(self).entries@, old(self).entries@),
            final(self).entries@[0] == old(self).entries@[0] || final(self).entries@[0]
                == old(self).entries@[index as int],
    {
        let ghost moving = self.entries@[index as int];
        let ghost start = self.entries@;
        let mut index = index;
        while index > 0 && self.entries[index].deadline < self.entries[(index - 1) / 4].deadline
            invariant
                index < self.entries@.len(),
                self.entries@.len() == start.len(),
                self.tokens@ == old(self).tokens@,
                start == old(self).entries@,
                heap_ordered_above(self.entries@, index as int),
                same_elements(self.entries@, start),
                self.entries@[index as int] == moving,
                index > 0 ==> self.entries@[0] == start[0],
                index == 0 ==> self.entries@[0] == moving,
            decreases index,
        {
            let p = (index - 1) / 4;
            let ghost s = self.entries@;
            swap_entries(&mut self.entries, index, p);
            proof {
                lemma_swapped_same_elements(s, index as int, p as int);
                lemma_up_step(s, index as int, p as int);
            }
            index = p;
        }
        proof {
            let s = self.entries@;
            if index > 0 {
                assert forall|i: int| 0 < i < s.len() implies s[parent(i)].deadline
                    <= #[trigger] s[i].deadline by {
                    if i != index as int {
                    }
                }
            }
        }
    }

    /// The child of `index` due earliest, when it is due before `index`
    /// itself; `usize::MAX` otherwise.
    fn min_child(entries: &Vec<Entry>, index: usize) -> (m: usize)
        requires
            index < entries@.len(),
            entries@.len() <= MAX_ENTRIES,
        ensures
            m == usize::MAX ==> forall|c: int|
                0 < c < entries@.len() && parent(c) == index ==> entries@[index as int].deadline
                    <= #[trigger] entries@[c].deadline,
            m != usize::MAX ==> {
                &&& 0 < m < entries@.len()
                &&& parent(m as int) == index
                &&& entries@[m as int].deadline < entries@[index as int].deadline
                &&& forall|c: int|
                    0 < c < entries@.len() && parent(c) == index ==> entries@[m as int].deadline
                        <= #[trigger] entries@[c].deadline
            },
    {
        let len = entries.len();
        let mut min_index = usize::MAX;
        let mut min_deadline = entries[index].deadline;
        let child = index * 4 + 1;
        if child < len && entries[child].deadline < min_deadline {
            min_deadline = entries[child].deadline;
            min_index = child;
        }
        let child = index * 4 + 2;
        if child < len && entries[child].deadline < min_deadline {
            min_deadline = entries[child].deadline;
            min_index = child;
        }
        let child = index * 4 + 3;
        if child < len && entries[child].deadline < min_deadline {
            min_deadline = entries[child].deadline;
            min_index = child;
        }
        let child = index * 4 + 4;
        if child < len && entries[child].deadline < min_deadline {
            min_index = child;
        }
        proof {
            let i = index as int;
            assert forall|c: int| 0 < c < entries@.len() && parent(c) == i implies c == 4 * i + 1
                || c == 4 * i + 2 || c == 4 * i + 3 || c == 4 * i + 4 by {}
        }
        min_index
    }

    /// Moves the entry at `index` away from the root until no child is due
    /// before it.
    fn restore_down(&mut self, index: usize)
        requires
            old(self).entries@.len() <= MAX_ENTRIES,
            heap_ordered_below(old(self).entries@, index as int),
        ensures
            final(self).tokens@ == old(self).tokens@,
            final(self).entries@.len() == old(self).entries@.len(),
            heap_ordered(final(self).entries@),
            same_elements(final(self).entries@, old(self).entries@),
    {
        let ghost start = self.entries@;
        let mut index = index;
        let len = self.entries.len();
        while index < len
            invariant
                len == self.entries@.len(),
                len == start.len(),
                len <= MAX_ENTRIES,
                start == old(self).entries@,
                self.tokens@ == old(self).tokens@,
                heap_ordered_below(self.entries@, index as int),
                same_elements(self.entries@, start),
            decreases len - index,
        {
            let m = TimerHeap::min_child(&self.entries, index);
            if m == usize::MAX {
                proof {
                    lemma_down_done(self.entries@, index as int);
                }
                return;
            }
            let ghost s = self.entries@;
            swap_entries(&mut self.entries, index, m);
            proof {
                lemma_swapped_same_elements(s, index as int, m as int);
                lemma_down_step(s, index as int, m as int);
            }
            index = m;
        }
        proof {
            let s = self.entries@;
            assert forall|i: int| 0 < i < s.len() implies s[parent(i)].deadline
                <= #[trigger] s[i].deadline by {
                assert(parent(i) != index as int);
            }
        }
    }

    /// Moves the last entry to the root, drops the root, and restores heap
    /// order; returns the dropped entry.
    fn drop_root(&mut self) -> (dropped: Entry)
        requires
            old(self).entries@.len() > 0,
            old(self).entries@.len() <= MAX_ENTRIES,
            heap_ordered(old(self).entries@),
        ensures
            dropped == old(self).entries@[0],
            final(self).tokens@ == old(self).tokens@,
            final(self).entries@.len() == old(self).entries@.len() - 1,
            heap_ordered(final(self).entries@),
            forall|e: Entry| final(self).entries@.contains(e) ==> old(self).entries@.contains(e),
            forall|e: Entry|
                old(self).entries@.contains(e) && e != old(self).entries@[0]
                    ==> final(self).entries@.contains(e),
    {
        let ghost s = self.entries@;
        let new_len = self.entries.len() - 1;
        let dropped = self.entries[0];
        swap_entries(&mut self.entries, 0, new_len);
        let ghost w = self.entries@;
        self.entries.truncate(new_len);
        proof {
            lemma_truncated_swap(s, w, self.entries@, new_len as int);
        }
        self.restore_down(0);
        dropped
    }

    /// Drops root entries whose token is no longer live.
    fn discard_head_tombstones(&mut self)
        requires
            old(self).tokens@.finite(),
            heap_ordered(old(self).entries@),
            old(self).entries@.len() <= MAX_ENTRIES,
            forall|t: usize| old(self).tokens@.contains(t) ==> has_token(old(self).entries@, t),
        ensures
            final(self).wf(),
            final(self).tokens@ == old(self).tokens@,
            final(self).keeps_live_entries(old(self)),
    {
        while !self.entries.is_empty() && !fx_set_contains(&self.tokens, self.entries[0].token)
            invariant
                self.tokens@ == old(self).tokens@,
                self.tokens@.finite(),
                heap_ordered(self.entries@),
                self.entries@.len() <= MAX_ENTRIES,
                forall|t: usize| self.tokens@.contains(t) ==> has_token(self.entries@, t),
                forall|e: Entry| self.entries@.contains(e) ==> old(self).entries@.contains(e),
                forall|e: Entry|
                    old(self).entries@.contains(e) && self.tokens@.contains(e.token)
                        ==> self.entries@.contains(e),
            decreases self.entries@.len(),
        {
            let ghost s = self.entries@;
            let ghost head = s[0];
            let _ = self.drop_root();
            proof {
                assert forall|t: usize| self.tokens@.contains(t) implies has_token(self.entries@, t) by {
                    let k = choose|k: int| 0 <= k < s.len() && #[trigger] s[k].token == t;
                    assert(s.contains(s[k]));
                    assert(s[k] != head);
                    assert(self.entries@.contains(s[k]));
                    let j = choose|j: int| 0 <= j < self.entries@.len() && self.entries@[j] == s[k];
                    assert(self.entries@[j].token == t);
                }
                assert forall|e: Entry|
                    old(self).entries@.contains(e) && self.tokens@.contains(
                        e.token,
                    ) implies self.entries@.contains(e) by {
                    assert(s.contains(e));
                    assert(e != head);
                }
            }
        }
    }

    /// Removes and returns the token due earliest, or `None` when no token is
    /// scheduled.
    pub fn pop(&mut self) -> (r: Option<usize>)
        requires
            old(self).wf(),
        ensures
            final(self).wf(),
            old(self).live() == Set::<usize>::empty() ==> {
                &&& r == None::<usize>
                &&& final(self).live() == old(self).live()
                &&& final(self).entries() == old(self).entries()
            },
            old(self).live() != Set::<usize>::empty() ==> {
                &&& r == Some(old(self).head().token)
                &&& old(self).is_earliest(old(self).head().deadline, old(self).head().token)
                &&& final(self).live() == old(self).live().remove(old(self).head().token)
                &&& final(self).keeps_live_entries(old(self))
            },
    {
        if !fx_set_is_empty(&self.tokens) {
            proof {
                self.lemma_nonempty();
                self.lemma_head_is_earliest();
            }
            let ghost s = self.entries@;
            let dropped = self.drop_root();
            let token = dropped.token;
            fx_set_remove(&mut self.tokens, token);
            proof {
                assert forall|t: usize| self.tokens@.contains(t) implies has_token(self.entries@, t) by {
                    let k = choose|k: int| 0 <= k < s.len() && #[trigger] s[k].token == t;
                    assert(s.contains(s[k]));
                    assert(s[k] != s[0]);
                    assert(self.entries@.contains(s[k]));
                    let j = choose|j: int| 0 <= j < self.entries@.len() && self.entries@[j] == s[k];
                    assert(self.entries@[j].token == t);
                }
                assert forall|e: Entry|
                    s.contains(e) && self.tokens@.contains(e.token) implies self.entries@.contains(e) by {
                    assert(e != s[0]);
                }
            }
            if !self.entries.is_empty() && !fx_set_contains(&self.tokens, self.entries[0].token) {
                self.discard_head_tombstones();
            }
            Some(token)
        } else {
            None
        }
    }

    /// Unschedules `token`; tells whether it was scheduled.
    pub fn remove(&mut self, token: usize) -> (was_present: bool)
        requires
            old(self).wf(),
        ensures
            final(self).wf(),
            was_present == old(self).live().contains(token),
            final(self).live() == old(self).live().remove(token),
            final(self).keeps_live_entries(old(self)),
    {
        let was_present = fx_set_remove(&mut self.tokens, token);
        proof {
            if was_present {
                assert(has_token(self.entries@, token));
            }
        }
        if was_present && self.entries[0].token == token {
            self.discard_head_tombstones();
        }
        was_present
    }

    /// The token due earliest, or `None` when no token is scheduled.
    pub fn next(&self) -> (r: Option<usize>)
        requires
            self.wf(),
        ensures
            self.live() == Set::<usize>::empty() ==> r == None::<usize>,
            self.live() != Set::<usize>::empty() ==> {
                &&& r == Some(self.head().token)
                &&& self.is_earliest(self.head().deadline, self.head().token)
            },
    {
        if !fx_set_is_empty(&self.tokens) {
            proof {
                self.lemma_nonempty();
                self.lemma_head_is_earliest();
            }
            Some(self.entries[0].token)
        } else {
            None
        }
    }

    /// The earliest deadline when it comes before `current_deadline`,
    /// `current_deadline` otherwise.
    pub fn next_deadline(&self, current_deadline: u64) -> (r: u64)
        requires
            self.wf(),
        ensures
            r == if self.live() == Set::<usize>::empty() || self.head().deadline
                >= current_deadline {
                current_deadline
            } else {
                self.head().deadline
            },
            self.live() != Set::<usize>::empty() ==> self.is_earliest(
                self.head().deadline,
                self.head().token,
            ),
    {
        if !fx_set_is_empty(&self.tokens) {
            proof {
                self.lemma_nonempty();
                self.lemma_head_is_earliest();
            }
            if self.entries[0].deadline < current_deadline {
                return self.entries[0].deadline;
            }
        }
        current_deadline
    }
}

/// A token that is not scheduled (for instance one just removed) is never
/// the one `next` or `pop` hands out.
pub proof fn law_unscheduled_token_is_not_next(heap: &TimerHeap, token: usize)
    requires
        heap.wf(),
        !heap.live().contains(token),
        heap.live() != Set::<usize>::empty(),
    ensures
        heap.head().token != token,
{
    heap.lemma_head_is_earliest();
}

} // verus!
