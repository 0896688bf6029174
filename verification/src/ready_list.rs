//! The counted list of completed requests handed back to the user.
use crate::links::{
    first_of, last_of, lemma_links_len_bound, lemma_unlinked_not_in, link, links_ok, node_linked,
    relink, same_outside, unlink,
};
use crate::request::{Request, PENDING};
use vstd::prelude::*;

verus! {

/// A FIFO of completed requests of an arena, with its length.
pub struct ReadyList {
    head: Option<usize>,
    tail: Option<usize>,
    len: usize,
    nodes: Ghost<Seq<usize>>,
}

impl View for ReadyList {
    type V = Seq<usize>;

    /// The positions of the listed requests, front first.
    closed spec fn view(&self) -> Seq<usize> {
        self.nodes@
    }
}

impl ReadyList {
    /// Head, tail and length match the listed positions.
    pub closed spec fn inv(&self) -> bool {
        &&& self.head == first_of(self.nodes@)
        &&& self.tail == last_of(self.nodes@)
        &&& self.len == self.nodes@.len()
    }

    /// The list is consistent with the links stored in `reqs`.
    pub open spec fn wf(&self, reqs: Seq<Request>) -> bool {
        &&& self.inv()
        &&& links_ok(reqs, self@)
    }

    /// An empty list.
    pub fn new() -> (l: ReadyList)
        ensures
            l.inv(),
            l@ == Seq::<usize>::empty(),
    {
        ReadyList { head: None, tail: None, len: 0, nodes: Ghost(Seq::empty()) }
    }

    /// A list made of the given linked positions.
    pub(crate) fn from_parts(
        head: Option<usize>,
        tail: Option<usize>,
        len: usize,
        Ghost(nodes): Ghost<Seq<usize>>,
    ) -> (l: ReadyList)
        requires
            head == first_of(nodes),
            tail == last_of(nodes),
            len == nodes.len(),
        ensures
            l.inv(),
            l@ == nodes,
    {
        ReadyList { head, tail, len, nodes: Ghost(nodes) }
    }

    /// The number of listed requests.
    pub fn len(&self) -> (n: usize)
        requires
            self.inv(),
        ensures
            n == self@.len(),
    {
        self.len
    }

    /// Links the unlinked completed request `new_tail` at the back.
    pub fn push_back(&mut self, reqs: &mut Vec<Request>, new_tail: usize)
        requires
            old(self).wf(old(reqs)@),
            new_tail < old(reqs)@.len(),
            old(reqs)@[new_tail as int]@.status != PENDING,
            !old(reqs)@[new_tail as int]@.in_list,
        ensures
            final(self).wf(final(reqs)@),
            final(self)@ == old(self)@.push(new_tail),
            same_outside(
                old(reqs)@,
                final(reqs)@,
                match last_of(old(self)@) {
                    Some(l) => set![new_tail, l],
                    None => set![new_tail],
                },
            ),
    {
        proof {
            lemma_unlinked_not_in(reqs@, self@, new_tail);
        }
        let ghost nodes = self@;
        let ghost old_reqs = reqs@;
        link(reqs, new_tail, None);
        let ghost mid = reqs@;
        match self.tail {
            None => {
                self.head = Some(new_tail);
            },
            Some(t) => {
                proof {
                    assert(node_linked(old_reqs, nodes, nodes.len() - 1));
                }
                relink(reqs, t, Some(new_tail));
            },
        }
        self.tail = Some(new_tail);
        self.nodes = Ghost(nodes.push(new_tail));
        proof {
            let s = self.nodes@;
            assert forall|j: int| 0 <= j < s.len() implies #[trigger] node_linked(reqs@, s, j) by {
                if j < nodes.len() - 1 {
                    assert(node_linked(old_reqs, nodes, j));
                    assert(nodes[j] != nodes[nodes.len() - 1]);
                    assert(nodes[j] != new_tail);
                }
            }
            assert forall|j: int| 0 <= j < reqs@.len() implies (#[trigger] reqs@[j])@.same_payload(
                old_reqs[j]@,
            ) by {
                assert(mid[j]@.same_payload(old_reqs[j]@));
            }
            if nodes.len() > 0 {
                assert forall|j: int|
                    0 <= j < reqs@.len() && !set![new_tail, nodes[nodes.len() - 1]].contains(
                        j as usize,
                    ) implies #[trigger] reqs@[j] == old_reqs[j] by {
                    assert(mid[j] == old_reqs[j]);
                }
            }
            assert(reqs@.len() == reqs.len());
            lemma_links_len_bound(reqs@, s);
        }
        self.len = self.len + 1;
    }

    /// Unlinks and returns the front request, `None` when the list is empty.
    pub fn pop_front(&mut self, reqs: &mut Vec<Request>) -> (r: Option<usize>)
        requires
            old(self).wf(old(reqs)@),
        ensures
            final(self).wf(final(reqs)@),
            r == first_of(old(self)@),
            old(self)@.len() == 0 ==> final(self)@ == old(self)@ && final(reqs)@ == old(reqs)@,
            old(self)@.len() > 0 ==> {
                &&& final(self)@ == old(self)@.drop_first()
                &&& same_outside(old(reqs)@, final(reqs)@, set![old(self)@[0]])
                &&& !final(reqs)@[old(self)@[0] as int]@.in_list
            },
    {
        let old_head = self.head;
        match old_head {
            None => {},
            Some(h) => {
                let ghost old_nodes = self@;
                let ghost old_reqs = reqs@;
                proof {
                    assert(node_linked(reqs@, self@, 0));
                }
                self.head = unlink(reqs, h);
                if self.head.is_none() {
                    self.tail = None;
                }
                self.len = self.len - 1;
                self.nodes = Ghost(old_nodes.drop_first());
                proof {
                    let s = self.nodes@;
                    assert forall|i: int| 0 <= i < s.len() implies #[trigger] node_linked(
                        reqs@,
                        s,
                        i,
                    ) by {
                        assert(node_linked(old_reqs, old_nodes, i + 1));
                        assert(old_nodes[i + 1] != h);
                    }
                }
            },
        }
        old_head
    }

    /// Moves all the requests of `other` to the back of this list; returns
    /// how many were moved.
    pub fn push_back_all(&mut self, reqs: &mut Vec<Request>, other: &mut ReadyList) -> (moved: usize)
        requires
            old(self).wf(old(reqs)@),
            old(other).wf(old(reqs)@),
            forall|k: usize| !(old(self)@.contains(k) && old(other)@.contains(k)),
        ensures
            final(self).wf(final(reqs)@),
            final(other).inv(),
            final(other)@ == Seq::<usize>::empty(),
            final(self)@ == old(self)@ + old(other)@,
            moved == old(other)@.len(),
            old(other)@.len() == 0 ==> final(reqs)@ == old(reqs)@,
            old(other)@.len() > 0 ==> same_outside(
                old(reqs)@,
                final(reqs)@,
                match last_of(old(self)@) {
                    Some(l) => set![l],
                    None => Set::<usize>::empty(),
                },
            ),
    {
        if other.head.is_none() {
            proof {
                assert(self@ + other@ =~= self@);
            }
            return 0;
        }
        let ghost a = self@;
        let ghost b = other@;
        let ghost old_reqs = reqs@;
        match self.tail {
            None => {
                self.head = other.head;
            },
            Some(t) => {
                proof {
                    assert(node_linked(old_reqs, a, a.len() - 1));
                }
                relink(reqs, t, other.head);
            },
        }
        self.tail = other.tail;
        let transfered = other.len;
        other.len = 0;
        other.head = None;
        other.tail = None;
        self.nodes = Ghost(a + b);
        other.nodes = Ghost(Seq::empty());
        proof {
            let s = a + b;
            assert forall|j: int| 0 <= j < s.len() implies #[trigger] node_linked(reqs@, s, j) by {
                if j < a.len() - 1 {
                    assert(node_linked(old_reqs, a, j));
                    assert(a[j] != a[a.len() - 1]);
                } else if j == a.len() - 1 {
                } else {
                    assert(node_linked(old_reqs, b, j - a.len()));
                    assert(!a.contains(b[j - a.len()]));
                    if a.len() > 0 {
                        assert(b[j - a.len()] != a[a.len() - 1]);
                    }
                }
            }
            assert(s.no_duplicates()) by {
                assert forall|x: int, y: int| 0 <= x < s.len() && 0 <= y < s.len() && x != y implies s[x]
                    != s[y] by {
                    if x < a.len() && y >= a.len() {
                        assert(a.contains(s[x]));
                        assert(b.contains(s[y]));
                    } else if y < a.len() && x >= a.len() {
                        assert(a.contains(s[y]));
                        assert(b.contains(s[x]));
                    }
                }
            }
            if a.len() == 0 {
                assert(reqs@ == old_reqs);
            }
            assert(reqs@.len() == reqs.len());
            lemma_links_len_bound(reqs@, s);
        }
        self.len = self.len + transfered;
        transfered
    }
}

} // verus!
