//! The queue through which requests completed on other threads come back
//! to their owner: a stack of completed requests plus a park flag.
use crate::links::{
    first_of, last_of, lemma_links_len_bound, lemma_unlinked_not_in, link, links_ok, next_of,
    node_linked, relink, same_outside,
};
use crate::ready_list::ReadyList;
use crate::request::{Request, RequestModel, PENDING};
use vstd::prelude::*;

verus! {

/// A request whose concurrent status became its local status; everything
/// else but the links is unchanged.
pub open spec fn completed_from(before: RequestModel, after: RequestModel) -> bool {
    after == RequestModel {
        status: before.concurrent_status,
        in_list: after.in_list,
        next: after.next,
        ..before
    }
}

/// Completed requests waiting to be handed to their owner.
pub struct RequestQueue {
    top: Option<usize>,
    parked: bool,
    nodes: Ghost<Seq<usize>>,
}

impl View for RequestQueue {
    type V = Seq<usize>;

    /// The queued positions, most recently pushed first.
    closed spec fn view(&self) -> Seq<usize> {
        self.nodes@
    }
}

fn take_status(reqs: &mut Vec<Request>, n: usize)
    requires
        n < old(reqs)@.len(),
    ensures
        final(reqs)@ == old(reqs)@.update(
            n as int,
            final(reqs)@[n as int],
        ),
        final(reqs)@[n as int]@ == (RequestModel {
            status: old(reqs)@[n as int]@.concurrent_status,
            ..old(reqs)@[n as int]@
        }),
{
    reqs[n].take_concurrent_status();
}

impl RequestQueue {
    /// Whether the owner announced that it is about to wait.
    pub closed spec fn parked(&self) -> bool {
        self.parked
    }

    /// The top matches the queued positions and a parked queue is empty.
    pub closed spec fn inv(&self) -> bool {
        &&& self.top == first_of(self.nodes@)
        &&& self.parked ==> self.nodes@.len() == 0
    }

    /// The queue is consistent with the links stored in `reqs`.
    pub open spec fn wf(&self, reqs: Seq<Request>) -> bool {
        &&& self.inv()
        &&& links_ok(reqs, self@)
    }

    /// An empty, unparked queue.
    pub fn new() -> (q: RequestQueue)
        ensures
            q.inv(),
            q@ == Seq::<usize>::empty(),
            !q.parked(),
    {
        RequestQueue { top: None, parked: false, nodes: Ghost(Seq::empty()) }
    }

    /// Adds the completed request `req`; clears the park flag.
    pub fn push(&mut self, reqs: &mut Vec<Request>, req: usize)
        requires
            old(self).wf(old(reqs)@),
            req < old(reqs)@.len(),
            old(reqs)@[req as int]@.concurrent_status != PENDING,
            !old(reqs)@[req as int]@.in_list,
        ensures
            final(self).wf(final(reqs)@),
            final(self)@ == seq![req] + old(self)@,
            !final(self).parked(),
            same_outside(old(reqs)@, final(reqs)@, set![req]),
    {
        proof {
            lemma_unlinked_not_in(reqs@, self@, req);
        }
        let ghost old_nodes = self@;
        let ghost old_reqs = reqs@;
        link(reqs, req, None);
        let ghost mid = reqs@;
        relink(reqs, req, self.top);
        self.top = Some(req);
        self.parked = false;
        self.nodes = Ghost(seq![req] + old_nodes);
        proof {
            let s = self.nodes@;
            assert forall|i: int| 0 <= i < s.len() implies #[trigger] node_linked(reqs@, s, i) by {
                if i > 0 {
                    assert(node_linked(old_reqs, old_nodes, i - 1));
                    assert(s[i] == old_nodes[i - 1]);
                    assert(old_nodes[i - 1] != req);
                }
            }
            assert forall|j: int| 0 <= j < reqs@.len() implies (#[trigger] reqs@[j])@.same_payload(
                old_reqs[j]@,
            ) by {
                assert(mid[j]@.same_payload(old_reqs[j]@));
            }
            assert forall|j: int| 0 <= j < reqs@.len() && !set![req].contains(j as usize) implies #[trigger] reqs@[j]
                == old_reqs[j] by {
                assert(mid[j] == old_reqs[j]);
            }
        }
    }

    /// Prepares to wait for `timeout_ms` milliseconds (forever when
    /// negative), so that a push wakes the waiting driver: returns
    /// `timeout_ms`, or `0` when completed requests are already queued (or
    /// the queue is already parked) and the driver must not wait. A wait of
    /// `0` does not park.
    pub fn park_begin(&mut self, timeout_ms: i32) -> (r: i32)
        requires
            old(self).inv(),
        ensures
            final(self).inv(),
            final(self)@ == old(self)@,
            r == if old(self)@.len() == 0 && !old(self).parked() {
                timeout_ms
            } else {
                0
            },
            final(self).parked() == (old(self).parked() || (timeout_ms != 0 && old(self)@.len()
                == 0 && !old(self).parked())),
    {
        if self.top.is_none() && !self.parked {
            if timeout_ms != 0 {
                self.parked = true;
            }
            return timeout_ms;
        }
        0
    }

    /// Ends a park: clears the park flag and moves the queued requests, in
    /// the order they were pushed, to the back of `ready_list`, each taking
    /// its concurrent status as its status; returns how many were moved.
    pub fn park_end(&mut self, reqs: &mut Vec<Request>, ready_list: &mut ReadyList) -> (count: i32)
        requires
            old(self).wf(old(reqs)@),
            old(ready_list).wf(old(reqs)@),
            forall|k: usize| !(old(self)@.contains(k) && old(ready_list)@.contains(k)),
        ensures
            final(self).wf(final(reqs)@),
            final(self)@ == Seq::<usize>::empty(),
            !final(self).parked(),
            final(ready_list).wf(final(reqs)@),
            final(ready_list)@ == old(ready_list)@ + old(self)@.reverse(),
            count == old(self)@.len() as i32,
            final(reqs)@.len() == old(reqs)@.len(),
            forall|j: int|
                0 <= j < old(reqs)@.len() && !old(self)@.contains(j as usize) && last_of(
                    old(ready_list)@,
                ) != Some(j as usize) ==> #[trigger] final(reqs)@[j] == old(reqs)@[j],
            forall|j: int|
                0 <= j < old(reqs)@.len() && old(self)@.contains(j as usize) ==> completed_from(
                    old(reqs)@[j]@,
                    #[trigger] final(reqs)@[j]@,
                ),
            forall|j: int|
                0 <= j < old(reqs)@.len() && !old(self)@.contains(j as usize) ==> (
                #[trigger] final(reqs)@[j])@.same_payload(old(reqs)@[j]@),
    {
        let ghost q = self@;
        let ghost r0 = ready_list@;
        let ghost reqs0 = reqs@;
        let mut count = 0i32;
        if self.top.is_some() || self.parked {
            let tail = self.top;
            self.top = None;
            self.parked = false;
            self.nodes = Ghost(Seq::empty());
            if tail.is_some() {
                let len_before = ready_list.len();
                let mut reversed = RequestQueue::reverse_list(reqs, tail, Ghost(q));
                let ghost reqs1 = reqs@;
                proof {
                    lemma_links_frame_ready(reqs0, reqs1, r0, q);
                    assert forall|k: usize| !(r0.contains(k) && q.reverse().contains(k)) by {
                        if q.reverse().contains(k) {
                            let i = choose|i: int| 0 <= i < q.len() && q.reverse()[i] == k;
                            assert(q[q.len() - 1 - i] == k);
                            assert(q.contains(k));
                        }
                    }
                }
                ready_list.push_back_all(reqs, &mut reversed);
                count = (ready_list.len() - len_before) as i32;
                proof {
                    assert forall|j: int| 0 <= j < reqs0.len() implies #[trigger] reqs@[j] == reqs0[j]
                        || q.contains(j as usize) || last_of(r0) == Some(j as usize) by {
                        if !q.contains(j as usize) && last_of(r0) != Some(j as usize) {
                            assert(reqs1[j] == reqs0[j]);
                            match last_of(r0) {
                                Some(l) => {
                                    assert(!set![l].contains(j as usize));
                                },
                                None => {},
                            }
                        }
                    }
                    assert forall|j: int| 0 <= j < reqs0.len() && q.contains(j as usize) implies completed_from(
                        reqs0[j]@,
                        #[trigger] reqs@[j]@,
                    ) by {
                        assert(completed_from(reqs0[j]@, reqs1[j]@));
                        assert(reqs@[j]@.same_payload(reqs1[j]@));
                    }
                    assert forall|j: int| 0 <= j < reqs0.len() && !q.contains(j as usize) implies (
                    #[trigger] reqs@[j])@.same_payload(reqs0[j]@) by {
                        assert(reqs1[j] == reqs0[j]);
                        assert(reqs@[j]@.same_payload(reqs1[j]@));
                    }
                }
            }
        }
        proof {
            if q.len() == 0 {
                assert(r0 + q.reverse() =~= r0);
            }
        }
        count
    }

    /// Reverses the stack that starts at `old_head` into a ready list,
    /// giving each request its concurrent status.
    fn reverse_list(reqs: &mut Vec<Request>, old_head: Option<usize>, Ghost(nodes): Ghost<Seq<usize>>) -> (r: ReadyList)
        requires
            links_ok(old(reqs)@, nodes),
            old_head == first_of(nodes),
        ensures
            r.wf(final(reqs)@),
            r@ == nodes.reverse(),
            final(reqs)@.len() == old(reqs)@.len(),
            forall|j: int|
                0 <= j < old(reqs)@.len() && !nodes.contains(j as usize) ==> #[trigger] final(reqs)@[j]
                    == old(reqs)@[j],
            forall|j: int|
                0 <= j < old(reqs)@.len() && nodes.contains(j as usize) ==> completed_from(
                    old(reqs)@[j]@,
                    #[trigger] final(reqs)@[j]@,
                ),
    {
        proof {
            assert(reqs@.len() == reqs.len());
            lemma_links_len_bound(reqs@, nodes);
        }
        let ghost reqs0 = reqs@;
        let n = Ghost(nodes.len());
        let mut len = 0usize;
        let tail = old_head;
        let mut head = old_head;
        let mut prev: Option<usize> = None;
        while head.is_some()
            invariant
                links_ok(reqs0, nodes),
                nodes.len() <= reqs0.len() <= usize::MAX,
                reqs@.len() == reqs0.len(),
                0 <= len <= nodes.len(),
                head == (if len < nodes.len() { Some(nodes[len as int]) } else { None::<usize> }),
                prev == (if len > 0 { Some(nodes[len - 1]) } else { None::<usize> }),
                forall|k: int| len <= k < nodes.len() ==> reqs@[#[trigger] nodes[k] as int] == reqs0[nodes[k] as int],
                forall|k: int|
                    0 <= k < len ==> {
                        &&& (#[trigger] reqs@[nodes[k] as int])@.in_list
                        &&& reqs@[nodes[k] as int]@.next == (if k > 0 { Some(nodes[k - 1]) } else { None::<usize> })
                        &&& completed_from(reqs0[nodes[k] as int]@, reqs@[nodes[k] as int]@)
                    },
                forall|j: int|
                    0 <= j < reqs0.len() && !nodes.contains(j as usize) ==> #[trigger] reqs@[j] == reqs0[j],
            decreases nodes.len() - len,
        {
            let h = head.unwrap();
            proof {
                assert(node_linked(reqs0, nodes, len as int));
            }
            let ghost before = reqs@;
            take_status(reqs, h);
            let next = reqs[h].list_get_next();
            let ghost mid = reqs@;
            relink(reqs, h, prev);
            proof {
                let l = len as int;
                assert forall|k: int| l + 1 <= k < nodes.len() implies reqs@[#[trigger] nodes[k] as int]
                    == reqs0[nodes[k] as int] by {
                    assert(node_linked(reqs0, nodes, k));
                    assert(nodes[k] != h);
                    assert(mid[nodes[k] as int] == before[nodes[k] as int]);
                    assert(!set![h].contains(nodes[k]));
                    assert(reqs@[nodes[k] as int] == mid[nodes[k] as int]);
                }
                assert forall|k: int| 0 <= k < l + 1 implies {
                    &&& (#[trigger] reqs@[nodes[k] as int])@.in_list
                    &&& reqs@[nodes[k] as int]@.next == (if k > 0 { Some(nodes[k - 1]) } else { None::<usize> })
                    &&& completed_from(reqs0[nodes[k] as int]@, reqs@[nodes[k] as int]@)
                } by {
                    if k < l {
                        assert(node_linked(reqs0, nodes, k));
                        assert(nodes[k] != h);
                        assert(mid[nodes[k] as int] == before[nodes[k] as int]);
                        assert(!set![h].contains(nodes[k]));
                        assert(reqs@[nodes[k] as int] == mid[nodes[k] as int]);
                    }
                }
                assert forall|j: int| 0 <= j < reqs0.len() && !nodes.contains(j as usize) implies #[trigger] reqs@[j]
                    == reqs0[j] by {
                    assert(nodes[l] == h);
                    assert(j != h as int);
                    assert(mid[j] == before[j]);
                    assert(!set![h].contains(j as usize));
                }
            }
            len = len + 1;
            prev = head;
            head = next;
        }
        proof {
            let rv = nodes.reverse();
            assert forall|i: int| 0 <= i < rv.len() implies #[trigger] node_linked(reqs@, rv, i) by {
                let k = nodes.len() - 1 - i;
                assert(rv[i] == nodes[k]);
                if i + 1 < rv.len() {
                    assert(rv[i + 1] == nodes[k - 1]);
                }
                assert(node_linked(reqs0, nodes, k));
            }
            assert(rv.no_duplicates()) by {
                assert forall|x: int, y: int| 0 <= x < rv.len() && 0 <= y < rv.len() && x != y implies rv[x]
                    != rv[y] by {
                    assert(rv[x] == nodes[nodes.len() - 1 - x]);
                    assert(rv[y] == nodes[nodes.len() - 1 - y]);
                }
            }
            assert forall|j: int| 0 <= j < reqs0.len() && nodes.contains(j as usize) implies completed_from(
                reqs0[j]@,
                #[trigger] reqs@[j]@,
            ) by {
                let k = choose|k: int| 0 <= k < nodes.len() && nodes[k] == j as usize;
                assert(completed_from(reqs0[nodes[k] as int]@, reqs@[nodes[k] as int]@));
            }
        }
        ReadyList::from_parts(prev, tail, len, Ghost(nodes.reverse()))
    }
}

/// A ready list that shares no request with the reversed stack stays linked
/// after the reversal.
proof fn lemma_links_frame_ready(a: Seq<Request>, b: Seq<Request>, ready: Seq<usize>, q: Seq<usize>)
    requires
        links_ok(a, ready),
        a.len() == b.len(),
        forall|k: usize| !(q.contains(k) && ready.contains(k)),
        forall|j: int| 0 <= j < a.len() && !q.contains(j as usize) ==> #[trigger] b[j] == a[j],
    ensures
        links_ok(b, ready),
{
    assert forall|i: int| 0 <= i < ready.len() implies #[trigger] node_linked(b, ready, i) by {
        assert(node_linked(a, ready, i));
        assert(ready.contains(ready[i]));
        assert(!q.contains(ready[i]));
    }
}

/// The queued positions after pushing each of `pushed`, in order, onto an
/// empty queue: the last pushed first.
pub open spec fn stacked(pushed: Seq<usize>) -> Seq<usize>
    decreases pushed.len(),
{
    if pushed.len() == 0 {
        Seq::empty()
    } else {
        seq![pushed.last()] + stacked(pushed.drop_last())
    }
}

/// A stack built by pushes holds them last first.
proof fn lemma_stacked_reverse(pushed: Seq<usize>)
    ensures
        stacked(pushed).reverse() == pushed,
    decreases pushed.len(),
{
    if pushed.len() > 0 {
        lemma_stacked_reverse(pushed.drop_last());
        let t = stacked(pushed.drop_last());
        assert((seq![pushed.last()] + t).reverse() =~= t.reverse().push(pushed.last()));
        assert(pushed.drop_last().push(pushed.last()) =~= pushed);
    } else {
        assert(stacked(pushed).reverse() =~= pushed);
    }
}

/// Requests completed on other threads reach their owner in the order they
/// were pushed: after pushing `pushed` onto an empty queue, ending a park
/// appends exactly `pushed` to the ready list.
pub proof fn law_park_end_in_push_order(ready: Seq<usize>, pushed: Seq<usize>)
    ensures
        ready + stacked(pushed).reverse() == ready + pushed,
{
    lemma_stacked_reverse(pushed);
}

/// Whatever order the pushes of several producers took, ending a park hands
/// over each pushed request exactly as often as it was pushed, and the
/// requests of any one producer (those `mine` picks out) in the order that
/// producer pushed them.
pub proof fn law_producers_keep_their_order(pushed: Seq<usize>, mine: spec_fn(usize) -> bool)
    ensures
        stacked(pushed).reverse().to_multiset() == pushed.to_multiset(),
        stacked(pushed).reverse().filter(mine) == pushed.filter(mine),
{
    lemma_stacked_reverse(pushed);
}

} // verus!
