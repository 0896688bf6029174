//! A singly linked list of submissions, linked through the submissions themselves.
use crate::sub_links::{
    first_of, lemma_unlinked_not_in, link, links_ok, next_of, node_linked, relink,
    same_outside, unlink,
};
use crate::sub::Sub;
use vstd::prelude::*;

verus! {

/// A list of submissions of an arena, from its head.
pub struct SubList {
    head: Option<usize>,
    nodes: Ghost<Seq<usize>>,
}

impl View for SubList {
    type V = Seq<usize>;

    /// The positions of the listed submissions, head first.
    closed spec fn view(&self) -> Seq<usize> {
        self.nodes@
    }
}

impl SubList {
    /// The head matches the listed positions.
    pub closed spec fn inv(&self) -> bool {
        self.head == first_of(self.nodes@)
    }

    /// The list is consistent with the links stored in `reqs`.
    pub open spec fn wf(&self, reqs: Seq<Sub>) -> bool {
        &&& self.inv()
        &&& links_ok(reqs, self@)
    }

    /// An empty list.
    pub fn new() -> (l: SubList)
        ensures
            l.inv(),
            l@ == Seq::<usize>::empty(),
    {
        SubList { head: None, nodes: Ghost(Seq::empty()) }
    }

    /// Tells whether the list is empty.
    pub fn is_empty(&self) -> (b: bool)
        requires
            self.inv(),
        ensures
            b == (self@.len() == 0),
    {
        self.head.is_none()
    }

    /// Links the unlinked submission `node` at the front. O(1)
    pub fn push_front(&mut self, reqs: &mut Vec<Sub>, node: usize)
        requires
            old(self).wf(old(reqs)@),
            node < old(reqs)@.len(),
            !old(reqs)@[node as int]@.in_list,
        ensures
            final(self).wf(final(reqs)@),
            final(self)@ == seq![node] + old(self)@,
            same_outside(old(reqs)@, final(reqs)@, set![node]),
    {
        proof {
            lemma_unlinked_not_in(reqs@, self@, node);
        }
        let ghost old_nodes = self@;
        let ghost old_reqs = reqs@;
        link(reqs, node, self.head);
        self.head = Some(node);
        self.nodes = Ghost(seq![node] + old_nodes);
        proof {
            let s = self.nodes@;
            assert forall|i: int| 0 <= i < s.len() implies #[trigger] node_linked(reqs@, s, i) by {
                if i > 0 {
                    assert(node_linked(old_reqs, old_nodes, i - 1));
                    assert(s[i] == old_nodes[i - 1]);
                    assert(old_nodes[i - 1] != node);
                }
            }
            assert(s.no_duplicates());
        }
    }

    /// Unlinks and returns the first submission, `None` when the list is empty. O(1)
    pub fn pop_front(&mut self, reqs: &mut Vec<Sub>) -> (r: Option<usize>)
        requires
            old(self).wf(old(reqs)@),
        ensures
            final(self).wf(final(reqs)@),
            r == first_of(old(self)@),
            old(self)@.len() == 0 ==> final(self)@ == old(self)@ && final(reqs)@ == old(reqs)@,
            old(self)@.len() > 0 ==> {
                &&& final(self)@ == old(self)@.drop_first()
                &&& same_outside(old(reqs)@, final(reqs)@, set![old(self)@[0]])
                &&& !final(reqs)@[old(self)@[0] as int]@.in_list
                &&& final(reqs)@[old(self)@[0] as int]@.next == None::<usize>
            },
    {
        match self.head {
            None => None,
            Some(old_head) => {
                let ghost old_nodes = self@;
                let ghost old_reqs = reqs@;
                proof {
                    assert(node_linked(reqs@, self@, 0));
                }
                self.head = unlink(reqs, old_head);
                self.nodes = Ghost(old_nodes.drop_first());
                proof {
                    let s = self.nodes@;
                    assert forall|i: int| 0 <= i < s.len() implies #[trigger] node_linked(
                        reqs@,
                        s,
                        i,
                    ) by {
                        assert(node_linked(old_reqs, old_nodes, i + 1));
                        assert(old_nodes[i + 1] != old_head);
                    }
                }
                Some(old_head)
            },
        }
    }

    /// Tells whether `node` is in the list.
    pub fn contains(&self, reqs: &Vec<Sub>, node: Option<usize>) -> (b: bool)
        requires
            self.wf(reqs@),
            node matches Some(n) ==> n < reqs@.len(),
        ensures
            b == (node matches Some(n) && self@.contains(n)),
    {
        let n = match node {
            None => return false,
            Some(n) => n,
        };
        if !reqs[n].in_a_list() {
            proof {
                lemma_unlinked_not_in(reqs@, self@, n);
            }
            return false;
        }
        let ghost nodes = self@;
        let mut it = self.head;
        let ghost mut i: int = 0;
        while it.is_some()
            invariant
                self.wf(reqs@),
                node == Some(n),
                nodes == self@,
                0 <= i <= nodes.len(),
                it == (if i < nodes.len() { Some(nodes[i]) } else { None::<usize> }),
                forall|j: int| 0 <= j < i ==> nodes[j] != n,
            decreases nodes.len() - i,
        {
            let x = it.unwrap();
            if x == n {
                assert(nodes[i] == n);
                assert(nodes.contains(n));
                return true;
            }
            proof {
                assert(node_linked(reqs@, nodes, i));
            }
            it = reqs[x].list_get_next();
            proof {
                i = i + 1;
            }
        }
        false
    }

    /// Unlinks `node` when it is in the list; tells whether it was.
    pub fn remove(&mut self, reqs: &mut Vec<Sub>, node: Option<usize>) -> (b: bool)
        requires
            old(self).wf(old(reqs)@),
            node matches Some(n) ==> n < old(reqs)@.len(),
            node matches Some(n) ==> (old(reqs)@[n as int]@.in_list ==> old(self)@.len() > 0),
        ensures
            final(self).wf(final(reqs)@),
            b == (node matches Some(n) && old(self)@.contains(n)),
            !b ==> final(self)@ == old(self)@ && final(reqs)@ == old(reqs)@,
            b ==> {
                let n = node->0;
                let k = old(self)@.index_of(n);
                &&& final(self)@ == old(self)@.remove(k)
                &&& same_outside(
                    old(reqs)@,
                    final(reqs)@,
                    if k > 0 { set![n, old(self)@[k - 1]] } else { set![n] },
                )
                &&& !final(reqs)@[n as int]@.in_list
            },
    {
        let n = match node {
            None => return false,
            Some(n) => n,
        };
        if !reqs[n].in_a_list() {
            proof {
                lemma_unlinked_not_in(reqs@, self@, n);
            }
            return false;
        }
        let ghost nodes = self@;
        let ghost old_reqs = reqs@;
        let head = self.head.unwrap();
        if head == n {
            proof {
                assert(nodes[0] == n);
                assert(nodes.index_of(n) == 0) by {
                    assert(nodes[0] == n);
                    let j = nodes.index_of(n);
                    assert(0 <= j < nodes.len() && nodes[j] == n);
                }
            }
            self.pop_front(reqs);
            return true;
        }
        let mut prev = head;
        proof {
            assert(node_linked(reqs@, nodes, 0));
        }
        let mut it = reqs[prev].list_get_next();
        let ghost mut i: int = 1;
        while it.is_some()
            invariant
                self.wf(reqs@),
                node == Some(n),
                reqs@ == old_reqs,
                nodes == self@,
                self@ == old(self)@,
                reqs@ == old(reqs)@,
                n < reqs@.len(),
                1 <= i <= nodes.len(),
                prev == nodes[i - 1],
                it == (if i < nodes.len() { Some(nodes[i]) } else { None::<usize> }),
                forall|j: int| 0 <= j < i ==> nodes[j] != n,
            decreases nodes.len() - i,
        {
            let x = it.unwrap();
            if x == n {
                proof {
                    assert(node_linked(reqs@, nodes, i));
                    assert(node_linked(reqs@, nodes, i - 1));
                }
                let nn = unlink(reqs, x);
                let ghost mid = reqs@;
                relink(reqs, prev, nn);
                self.nodes = Ghost(nodes.remove(i));
                proof {
                    assert(nodes.index_of(n) == i) by {
                        assert(nodes[i] == n);
                        let j = nodes.index_of(n);
                        assert(0 <= j < nodes.len() && nodes[j] == n);
                    }
                    let s = self.nodes@;
                    assert forall|j: int| 0 <= j < s.len() implies #[trigger] node_linked(
                        reqs@,
                        s,
                        j,
                    ) by {
                        if j < i - 1 {
                            assert(node_linked(old_reqs, nodes, j));
                            assert(nodes[j] != n && nodes[j] != prev);
                        } else if j == i - 1 {
                        } else {
                            assert(node_linked(old_reqs, nodes, j + 1));
                            assert(nodes[j + 1] != n && nodes[j + 1] != prev);
                        }
                    }
                    assert forall|j: int|
                        0 <= j < reqs@.len() && !set![n, prev].contains(j as usize) implies #[trigger] reqs@[j]
                        == old_reqs[j] by {
                        assert(mid[j] == old_reqs[j]);
                    }
                    assert forall|j: int| 0 <= j < reqs@.len() implies (
                    #[trigger] reqs@[j])@.same_payload(old_reqs[j]@) by {
                        assert(mid[j]@.same_payload(old_reqs[j]@));
                    }
                    assert(nodes.contains(n));
                    assert(self@ == old(self)@.remove(old(self)@.index_of(n)));
                    assert(same_outside(old(reqs)@, reqs@, set![n, nodes[i - 1]]));
                    assert(!reqs@[n as int]@.in_list);
                }
                return true;
            }
            proof {
                assert(node_linked(reqs@, nodes, i));
            }
            prev = x;
            it = reqs[x].list_get_next();
            proof {
                i = i + 1;
            }
        }
        proof {
            assert(!nodes.contains(n));
        }
        false
    }
}

} // verus!
