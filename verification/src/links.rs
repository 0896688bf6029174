//! Specifications shared by the intrusive lists of requests, and the
//! arena operations that change one request's links.
use crate::request::Request;
use vstd::prelude::*;
use vstd::set_lib::{lemma_len_subset, FiniteRange};

verus! {

/// The successor of position `i` in a list of request positions.
pub open spec fn next_of(nodes: Seq<usize>, i: int) -> Option<usize> {
    if i + 1 < nodes.len() {
        Some(nodes[i + 1])
    } else {
        None
    }
}

/// The first position of a list, if any.
pub open spec fn first_of(nodes: Seq<usize>) -> Option<usize> {
    if nodes.len() > 0 {
        Some(nodes[0])
    } else {
        None
    }
}

/// The last position of a list, if any.
pub open spec fn last_of(nodes: Seq<usize>) -> Option<usize> {
    if nodes.len() > 0 {
        Some(nodes[nodes.len() - 1])
    } else {
        None
    }
}

/// Position `i` of the list is linked to its successor.
pub open spec fn node_linked(reqs: Seq<Request>, nodes: Seq<usize>, i: int) -> bool {
    &&& nodes[i] < reqs.len()
    &&& reqs[nodes[i] as int]@.in_list
    &&& reqs[nodes[i] as int]@.next == next_of(nodes, i)
}

/// `nodes` are distinct requests of `reqs`, each linked to the next one,
/// the last one to nothing.
pub open spec fn links_ok(reqs: Seq<Request>, nodes: Seq<usize>) -> bool {
    &&& nodes.no_duplicates()
    &&& forall|i: int| 0 <= i < nodes.len() ==> #[trigger] node_linked(reqs, nodes, i)
}

/// `b` is `a` but for the links of the requests at the positions of
/// `touched`.
pub open spec fn same_outside(a: Seq<Request>, b: Seq<Request>, touched: Set<usize>) -> bool {
    &&& a.len() == b.len()
    &&& forall|j: int| 0 <= j < a.len() && !touched.contains(j as usize) ==> #[trigger] b[j] == a[j]
    &&& forall|j: int| 0 <= j < a.len() ==> (#[trigger] b[j])@.same_payload(a[j]@)
}

/// A list whose requests keep their links stays linked.
pub proof fn lemma_links_frame(a: Seq<Request>, b: Seq<Request>, nodes: Seq<usize>)
    requires
        links_ok(a, nodes),
        a.len() == b.len(),
        forall|i: int| 0 <= i < nodes.len() ==> b[#[trigger] nodes[i] as int] == a[nodes[i] as int],
    ensures
        links_ok(b, nodes),
{
    assert forall|i: int| 0 <= i < nodes.len() implies #[trigger] node_linked(b, nodes, i) by {
        assert(node_linked(a, nodes, i));
        assert(b[nodes[i] as int] == a[nodes[i] as int]);
    }
}

/// A list none of whose requests is among `touched` stays linked when only
/// the requests of `touched` change their links.
pub proof fn lemma_links_frame_outside(
    a: Seq<Request>,
    b: Seq<Request>,
    touched: Set<usize>,
    nodes: Seq<usize>,
)
    requires
        links_ok(a, nodes),
        same_outside(a, b, touched),
        forall|k: usize| touched.contains(k) ==> !nodes.contains(k),
    ensures
        links_ok(b, nodes),
{
    assert forall|i: int| 0 <= i < nodes.len() implies #[trigger] node_linked(b, nodes, i) by {
        assert(node_linked(a, nodes, i));
        assert(nodes.contains(nodes[i]));
        assert(!touched.contains(nodes[i]));
    }
}

/// A list stays linked when a request is added at the end of the arena.
pub proof fn lemma_links_push(a: Seq<Request>, r: Request, nodes: Seq<usize>)
    requires
        links_ok(a, nodes),
    ensures
        links_ok(a.push(r), nodes),
{
    assert forall|i: int| 0 <= i < nodes.len() implies #[trigger] node_linked(a.push(r), nodes, i) by {
        assert(node_linked(a, nodes, i));
    }
}

/// A request that is not linked is in no linked list.
pub proof fn lemma_unlinked_not_in(reqs: Seq<Request>, nodes: Seq<usize>, n: usize)
    requires
        links_ok(reqs, nodes),
        n < reqs.len(),
        !reqs[n as int]@.in_list,
    ensures
        !nodes.contains(n),
{
    if nodes.contains(n) {
        let i = choose|i: int| 0 <= i < nodes.len() && nodes[i] == n;
        assert(node_linked(reqs, nodes, i));
    }
}

/// Distinct positions below `n` are at most `n`.
pub proof fn lemma_distinct_len_bound(nodes: Seq<usize>, n: usize)
    requires
        nodes.no_duplicates(),
        forall|i: int| 0 <= i < nodes.len() ==> #[trigger] nodes[i] < n,
    ensures
        nodes.len() <= n,
{
    nodes.unique_seq_to_set();
    <usize as FiniteRange>::range_properties(0, n);
    let r = <usize as FiniteRange>::range_set(0, n);
    assert forall|x: usize| nodes.to_set().contains(x) implies r.contains(x) by {
        let i = choose|i: int| 0 <= i < nodes.len() && nodes[i] == x;
        assert(nodes[i] < n);
    }
    lemma_len_subset(nodes.to_set(), r);
}

/// The positions of a linked list are at most the arena's length.
pub proof fn lemma_links_len_bound(reqs: Seq<Request>, nodes: Seq<usize>)
    requires
        links_ok(reqs, nodes),
        reqs.len() <= usize::MAX,
    ensures
        nodes.len() <= reqs.len(),
{
    assert forall|i: int| 0 <= i < nodes.len() implies #[trigger] nodes[i] < reqs.len() by {
        assert(node_linked(reqs, nodes, i));
    }
    lemma_distinct_len_bound(nodes, reqs.len() as usize);
}

/// Links the unlinked request at `n` in front of `next`.
pub fn link(reqs: &mut Vec<Request>, n: usize, next: Option<usize>)
    requires
        n < old(reqs)@.len(),
        !old(reqs)@[n as int]@.in_list,
    ensures
        same_outside(old(reqs)@, final(reqs)@, set![n]),
        final(reqs)@[n as int]@.in_list,
        final(reqs)@[n as int]@.next == next,
{
    reqs[n].list_set_next(next);
}

/// Changes the successor of the linked request at `n`.
pub fn relink(reqs: &mut Vec<Request>, n: usize, next: Option<usize>)
    requires
        n < old(reqs)@.len(),
        old(reqs)@[n as int]@.in_list,
    ensures
        same_outside(old(reqs)@, final(reqs)@, set![n]),
        final(reqs)@[n as int]@.in_list,
        final(reqs)@[n as int]@.next == next,
{
    reqs[n].list_update_next(next);
}

/// Unlinks the request at `n`; returns its former successor.
pub fn unlink(reqs: &mut Vec<Request>, n: usize) -> (next: Option<usize>)
    requires
        n < old(reqs)@.len(),
    ensures
        next == old(reqs)@[n as int]@.next,
        same_outside(old(reqs)@, final(reqs)@, set![n]),
        !final(reqs)@[n as int]@.in_list,
        final(reqs)@[n as int]@.next == None::<usize>,
{
    reqs[n].list_pop_next()
}

} // verus!
