//! A first-in first-out queue of requests, linked through the requests.
use crate::links::{
    first_of, last_of, lemma_unlinked_not_in, link, links_ok, next_of, node_linked, relink,
    same_outside, unlink,
};
use crate::request::Request;
use vstd::prelude::*;

verus! {

/// A FIFO of requests of an arena.
pub struct ReadyFifo {
    head: Option<usize>,
    tail: Option<usize>,
    nodes: Ghost<Seq<usize>>,
}

impl View for ReadyFifo {
    type V = Seq<usize>;

    /// The positions of the queued requests, front first.
    closed spec fn view(&self) -> Seq<usize> {
        self.nodes@
    }
}

impl Default for ReadyFifo {
    fn default() -> (f: ReadyFifo)
        ensures
            f.inv(),
            f@ == Seq::<usize>::empty(),
    {
        ReadyFifo { head: None, tail: None, nodes: Ghost(Seq::empty()) }
    }
}

impl ReadyFifo {
    /// Head and tail match the queued positions.
    pub closed spec fn inv(&self) -> bool {
        &&& self.head == first_of(self.nodes@)
        &&& self.tail == last_of(self.nodes@)
    }

    /// The queue is consistent with the links stored in `reqs`.
    pub open spec fn wf(&self, reqs: Seq<Request>) -> bool {
        &&& self.inv()
        &&& links_ok(reqs, self@)
    }

    /// An empty queue.
    pub fn new() -> (f: ReadyFifo)
        ensures
            f.inv(),
            f@ == Seq::<usize>::empty(),
    {
        Self::default()
    }

    /// Tells whether the queue is empty.
    pub fn is_empty(&self) -> (b: bool)
        requires
            self.inv(),
        ensures
            b == (self@.len() == 0),
    {
        self.head.is_none()
    }

    /// Unlinks and returns the front request, `None` when the queue is empty.
    pub fn pop_front(&mut self, reqs: &mut Vec<Request>) -> (r: Option<usize>)
        requires
            old(self).wf(old(reqs)@),
        ensures
            final(self).wf(final(reqs)@),
            r == first_of(old(self)@),
            old(self)@.len() == 0 ==> final(self)@ == old(self)@ && final(reqs)@ == old(reqs)@,
            old(self)@.len() > 0 ==> {
                &&& final(self)@ == old(self)@.drop_first()
                &&& same_outside(old(reqs)@, final(reqs)@, set![old(self)@[0]])
                &&& !final(reqs)@[old(self)@[0] as int]@.in_list
            },
    {
        let old_head = self.head;
        match old_head {
            None => {},
            Some(h) => {
                let ghost old_nodes = self@;
                let ghost old_reqs = reqs@;
                proof {
                    assert(node_linked(reqs@, self@, 0));
                }
                self.head = unlink(reqs, h);
                if self.head.is_none() {
                    self.tail = None;
                }
                self.nodes = Ghost(old_nodes.drop_first());
                proof {
                    let s = self.nodes@;
                    assert forall|i: int| 0 <= i < s.len() implies #[trigger] node_linked(
                        reqs@,
                        s,
                        i,
                    ) by {
                        assert(node_linked(old_reqs, old_nodes, i + 1));
                        assert(old_nodes[i + 1] != h);
                    }
                }
            },
        }
        old_head
    }

    /// Links the unlinked request `new_tail` at the back.
    pub fn push_back(&mut self, reqs: &mut Vec<Request>, new_tail: usize)
        requires
            old(self).wf(old(reqs)@),
            new_tail < old(reqs)@.len(),
            !old(reqs)@[new_tail as int]@.in_list,
        ensures
            final(self).wf(final(reqs)@),
            final(self)@ == old(self)@.push(new_tail),
            same_outside(
                old(reqs)@,
                final(reqs)@,
                match last_of(old(self)@) {
                    Some(l) => set![new_tail, l],
                    None => set![new_tail],
                },
            ),
    {
        proof {
            lemma_unlinked_not_in(reqs@, self@, new_tail);
        }
        let ghost nodes = self@;
        let ghost old_reqs = reqs@;
        link(reqs, new_tail, None);
        let ghost mid = reqs@;
        match self.tail {
            None => {
                self.head = Some(new_tail);
            },
            Some(t) => {
                proof {
                    assert(node_linked(old_reqs, nodes, nodes.len() - 1));
                }
                relink(reqs, t, Some(new_tail));
            },
        }
        self.tail = Some(new_tail);
        self.nodes = Ghost(nodes.push(new_tail));
        proof {
            let s = self.nodes@;
            assert forall|j: int| 0 <= j < s.len() implies #[trigger] node_linked(reqs@, s, j) by {
                if j < nodes.len() - 1 {
                    assert(node_linked(old_reqs, nodes, j));
                    assert(nodes[j] != nodes[nodes.len() - 1]);
                    assert(nodes[j] != new_tail);
                }
            }
            assert forall|j: int| 0 <= j < reqs@.len() implies (#[trigger] reqs@[j])@.same_payload(
                old_reqs[j]@,
            ) by {
                assert(mid[j]@.same_payload(old_reqs[j]@));
            }
            if nodes.len() > 0 {
                assert forall|j: int|
                    0 <= j < reqs@.len() && !set![new_tail, nodes[nodes.len() - 1]].contains(
                        j as usize,
                    ) implies #[trigger] reqs@[j] == old_reqs[j] by {
                    assert(mid[j] == old_reqs[j]);
                }
            }
        }
    }

    /// Moves all the requests of `other` to the back of this queue.
    pub fn push_back_all(&mut self, reqs: &mut Vec<Request>, other: &mut ReadyFifo)
        requires
            old(self).wf(old(reqs)@),
            old(other).wf(old(reqs)@),
            forall|k: usize| !(old(self)@.contains(k) && old(other)@.contains(k)),
        ensures
            final(self).wf(final(reqs)@),
            final(other).inv(),
            final(other)@ == Seq::<usize>::empty(),
            final(self)@ == old(self)@ + old(other)@,
            old(other)@.len() == 0 ==> final(reqs)@ == old(reqs)@,
            old(other)@.len() > 0 ==> same_outside(
                old(reqs)@,
                final(reqs)@,
                match last_of(old(self)@) {
                    Some(l) => set![l],
                    None => Set::<usize>::empty(),
                },
            ),
    {
        if other.is_empty() {
            proof {
                assert(self@ + other@ =~= self@);
            }
            return;
        }
        let ghost a = self@;
        let ghost b = other@;
        let ghost old_reqs = reqs@;
        match self.tail {
            None => {
                self.head = other.head;
            },
            Some(t) => {
                proof {
                    assert(node_linked(old_reqs, a, a.len() - 1));
                }
                relink(reqs, t, other.head);
            },
        }
        self.tail = other.tail;
        other.head = None;
        other.tail = None;
        self.nodes = Ghost(a + b);
        other.nodes = Ghost(Seq::empty());
        proof {
            let s = a + b;
            assert forall|j: int| 0 <= j < s.len() implies #[trigger] node_linked(reqs@, s, j) by {
                if j < a.len() - 1 {
                    assert(node_linked(old_reqs, a, j));
                    assert(a[j] != a[a.len() - 1]);
                } else if j == a.len() - 1 {
                } else {
                    assert(node_linked(old_reqs, b, j - a.len()));
                    assert(!a.contains(b[j - a.len()]));
                    if a.len() > 0 {
                        assert(b[j - a.len()] != a[a.len() - 1]);
                    }
                }
            }
            assert(s.no_duplicates()) by {
                assert forall|x: int, y: int| 0 <= x < s.len() && 0 <= y < s.len() && x != y implies s[x]
                    != s[y] by {
                    if x < a.len() && y >= a.len() {
                        assert(a.contains(s[x]));
                        assert(b.contains(s[y]));
                    } else if y < a.len() && x >= a.len() {
                        assert(a.contains(s[y]));
                        assert(b.contains(s[x]));
                    }
                }
            }
            if a.len() == 0 {
                assert(reqs@ == old_reqs);
            }
        }
    }
}

/// First in, first out: pushing at the back does not change which request
/// comes out first, unless the queue was empty, and popping commutes with
/// pushing on a non-empty queue.
pub proof fn law_first_in_first_out(queue: Seq<usize>, node: usize)
    ensures
        queue.len() == 0 ==> first_of(queue.push(node)) == Some(node) && queue.push(node).drop_first()
            == queue,
        queue.len() > 0 ==> first_of(queue.push(node)) == first_of(queue) && queue.push(
            node,
        ).drop_first() == queue.drop_first().push(node),
{
    assert(queue.len() == 0 ==> queue.push(node).drop_first() =~= queue);
    assert(queue.len() > 0 ==> queue.push(node).drop_first() =~= queue.drop_first().push(node));
}

/// Appending a whole queue keeps both orders: the requests of the first
/// queue come out first, then those of the second.
pub proof fn law_push_back_all_keeps_order(first: Seq<usize>, second: Seq<usize>)
    ensures
        first.len() > 0 ==> first_of(first + second) == first_of(first) && (first
            + second).drop_first() == first.drop_first() + second,
        first.len() == 0 ==> first + second == second,
{
    assert(first.len() > 0 ==> (first + second).drop_first() =~= first.drop_first() + second);
    assert(first.len() == 0 ==> first + second =~= second);
}

} // verus!
