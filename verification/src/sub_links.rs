//! Specifications shared by the intrusive lists of submissions, and the
//! arena operations that change one submission's links.
use crate::sub::Sub;
use vstd::prelude::*;

verus! {

/// The successor of position `i` in a list of submission positions.
pub open spec fn next_of(nodes: Seq<usize>, i: int) -> Option<usize> {
    if i + 1 < nodes.len() {
        Some(nodes[i + 1])
    } else {
        None
    }
}

/// The first position of a list, if any.
pub open spec fn first_of(nodes: Seq<usize>) -> Option<usize> {
    if nodes.len() > 0 {
        Some(nodes[0])
    } else {
        None
    }
}

/// The last position of a list, if any.
pub open spec fn last_of(nodes: Seq<usize>) -> Option<usize> {
    if nodes.len() > 0 {
        Some(nodes[nodes.len() - 1])
    } else {
        None
    }
}

/// Position `i` of the list is linked to its successor.
pub open spec fn node_linked(reqs: Seq<Sub>, nodes: Seq<usize>, i: int) -> bool {
    &&& nodes[i] < reqs.len()
    &&& reqs[nodes[i] as int]@.in_list
    &&& reqs[nodes[i] as int]@.next == next_of(nodes, i)
}

/// `nodes` are distinct submissions of `reqs`, each linked to the next one,
/// the last one to nothing.
pub open spec fn links_ok(reqs: Seq<Sub>, nodes: Seq<usize>) -> bool {
    &&& nodes.no_duplicates()
    &&& forall|i: int| 0 <= i < nodes.len() ==> #[trigger] node_linked(reqs, nodes, i)
}

/// `b` is `a` but for the links of the submissions at the positions of
/// `touched`.
pub open spec fn same_outside(a: Seq<Sub>, b: Seq<Sub>, touched: Set<usize>) -> bool {
    &&& a.len() == b.len()
    &&& forall|j: int| 0 <= j < a.len() && !touched.contains(j as usize) ==> #[trigger] b[j] == a[j]
    &&& forall|j: int| 0 <= j < a.len() ==> (#[trigger] b[j])@.same_payload(a[j]@)
}

/// A list whose submissions keep their links stays linked.
pub proof fn lemma_links_frame(a: Seq<Sub>, b: Seq<Sub>, nodes: Seq<usize>)
    requires
        links_ok(a, nodes),
        a.len() == b.len(),
        forall|i: int| 0 <= i < nodes.len() ==> b[#[trigger] nodes[i] as int] == a[nodes[i] as int],
    ensures
        links_ok(b, nodes),
{
    assert forall|i: int| 0 <= i < nodes.len() implies #[trigger] node_linked(b, nodes, i) by {
        assert(node_linked(a, nodes, i));
        assert(b[nodes[i] as int] == a[nodes[i] as int]);
    }
}

/// A submission that is not linked is in no linked list.
pub proof fn lemma_unlinked_not_in(reqs: Seq<Sub>, nodes: Seq<usize>, n: usize)
    requires
        links_ok(reqs, nodes),
        n < reqs.len(),
        !reqs[n as int]@.in_list,
    ensures
        !nodes.contains(n),
{
    if nodes.contains(n) {
        let i = choose|i: int| 0 <= i < nodes.len() && nodes[i] == n;
        assert(node_linked(reqs, nodes, i));
    }
}

/// Links the unlinked submission at `n` in front of `next`.
pub fn link(reqs: &mut Vec<Sub>, n: usize, next: Option<usize>)
    requires
        n < old(reqs)@.len(),
        !old(reqs)@[n as int]@.in_list,
    ensures
        same_outside(old(reqs)@, final(reqs)@, set![n]),
        final(reqs)@[n as int]@.in_list,
        final(reqs)@[n as int]@.next == next,
{
    reqs[n].list_set_next(next);
}

/// Changes the successor of the linked submission at `n`.
pub fn relink(reqs: &mut Vec<Sub>, n: usize, next: Option<usize>)
    requires
        n < old(reqs)@.len(),
        old(reqs)@[n as int]@.in_list,
    ensures
        same_outside(old(reqs)@, final(reqs)@, set![n]),
        final(reqs)@[n as int]@.in_list,
        final(reqs)@[n as int]@.next == next,
{
    reqs[n].list_update_next(next);
}

/// Unlinks the submission at `n`; returns its former successor.
pub fn unlink(reqs: &mut Vec<Sub>, n: usize) -> (next: Option<usize>)
    requires
        n < old(reqs)@.len(),
    ensures
        next == old(reqs)@[n as int]@.next,
        same_outside(old(reqs)@, final(reqs)@, set![n]),
        !final(reqs)@[n as int]@.in_list,
        final(reqs)@[n as int]@.next == None::<usize>,
{
    reqs[n].list_pop_next()
}

} // verus!
