//! Socket requests waiting for readiness on one descriptor, and what an
//! event does to them.
//!
//! A readiness event is handled in one pass over the waiting requests, in
//! the order they were added. Receives and sends whose interests match the
//! events move data right away (the caller performs the transfer and hands
//! its outcome back); polls report the events, once for a one-shot poll,
//! through a fresh instance for a multishot one. Completed requests go to
//! the ready list at the end of the pass; the others keep waiting, in
//! order.
use crate::links::{
    last_of, lemma_links_frame_outside, lemma_links_push, lemma_unlinked_not_in, links_ok,
    same_outside,
};
use crate::ready_list::ReadyList;
use crate::request::{
    Request, RequestData, RequestModel, SocketRequest, OP_SOCKET_POLL, OP_SOCKET_RECV,
    OP_SOCKET_SEND, PENDING,
};
use crate::request_list::RequestList;
use crate::selector::{INTEREST_ERROR, INTEREST_ONESHOT, INTEREST_READABLE, INTEREST_WRITABLE};
use vstd::prelude::*;

verus! {

/// What the pass does with one waiting request.
#[derive(Debug, Clone, Copy, PartialEq, Eq, Structural)]
pub enum PendingAction {
    /// Move data now: the request receives or sends.
    Transfer,
    /// A one-shot poll completes with these events.
    CompleteOneShot(i32),
    /// A multishot poll reports these events through a new instance and
    /// keeps waiting.
    Multishot(i32),
    /// The request does not watch these events: it keeps waiting.
    Keep,
}

/// The action for a request with `opcode` and `interests`, when `events`
/// are ready for transfers and `poll_events` for polls.
pub open spec fn spec_pending_action(opcode: u8, interests: i32, events: i32, poll_events: i32) -> PendingAction {
    let is_poll = opcode == OP_SOCKET_POLL;
    let op_poll_events = interests & poll_events;
    if !is_poll && interests & events != 0 {
        PendingAction::Transfer
    } else if is_poll && op_poll_events != 0 {
        if interests & (INTEREST_ONESHOT as i32) != 0 {
            PendingAction::CompleteOneShot(op_poll_events)
        } else {
            PendingAction::Multishot(op_poll_events)
        }
    } else {
        PendingAction::Keep
    }
}

/// The socket part of a request.
pub open spec fn socket_of(r: RequestModel) -> SocketRequest {
    r.op->Socket_0
}

/// The interests of a socket request, as a signed event mask.
pub open spec fn interests_of(r: RequestModel) -> i32 {
    socket_of(r).interests as i32
}

/// A request that can wait for socket readiness: a poll, receive or send,
/// not completed from another thread, with no more done than asked.
pub open spec fn pending_ok(r: RequestModel) -> bool {
    &&& r.op is Socket
    &&& OP_SOCKET_POLL <= r.opcode_raw() <= OP_SOCKET_SEND
    &&& !r.has_concurrent_flag()
    &&& socket_of(r).done <= socket_of(r).todo
}

/// Every listed request can wait for socket readiness.
pub open spec fn all_pending_ok(reqs: Seq<Request>, nodes: Seq<usize>) -> bool {
    forall|i: int| 0 <= i < nodes.len() ==> #[trigger] nodes[i] < reqs.len() && pending_ok(reqs[nodes[i] as int]@)
}

/// `r` once it completed with `s`: the first status sticks.
pub open spec fn with_status(r: RequestModel, s: i32) -> RequestModel {
    RequestModel { status: if r.status == PENDING { s } else { r.status }, ..r }
}

/// A request after a transfer that moved `status` bytes (or failed with
/// the negative `status`): the bytes count as done, and the request
/// completes with its total when all are done, or with the error.
pub open spec fn spec_resumed(r: RequestModel, status: i32) -> RequestModel {
    let sock = socket_of(r);
    if status >= 0 {
        let done = (sock.done + status) as u32;
        let moved = RequestModel { op: RequestData::Socket(SocketRequest { done, ..sock }), ..r };
        if done >= sock.todo {
            with_status(moved, done as i32)
        } else {
            moved
        }
    } else {
        with_status(r, status)
    }
}

/// The request keeps waiting after the transfer: it moved data and some
/// is left to move.
pub open spec fn spec_resume_again(r: RequestModel, status: i32) -> bool {
    status >= 0 && socket_of(r).done + status < socket_of(r).todo
}

/// The events left for transfers after one that gave `status`: an error
/// marks the socket neither readable nor writable, but in error.
pub open spec fn spec_events_after(events: i32, status: i32) -> i32 {
    if status >= 0 {
        events
    } else {
        (events & !(INTEREST_READABLE as i32) & !(INTEREST_WRITABLE as i32)) | (INTEREST_ERROR as i32)
    }
}

/// The events left for polls after a transfer that gave `status`: an
/// error adds the error event.
pub open spec fn spec_poll_events_after(poll_events: i32, status: i32) -> i32 {
    if status >= 0 {
        poll_events
    } else {
        poll_events | (INTEREST_ERROR as i32)
    }
}

/// What a transfer outcome may be for request `r`: no more bytes than are
/// left, never the pending marker, and a completion whose total does not
/// read as the pending marker.
pub open spec fn transfer_status_ok(r: RequestModel, status: i32) -> bool {
    &&& status != PENDING
    &&& status >= 0 ==> status <= socket_of(r).todo - socket_of(r).done
    &&& status >= 0 ==> socket_of(r).done + status != 0x8000_0000
}

/// The action for the socket request `req` on `events` (for transfers) and
/// `poll_events` (for polls).
pub fn pending_action(req: &Request, events: i32, poll_events: i32) -> (a: PendingAction)
    requires
        req@.op is Socket,
    ensures
        a == spec_pending_action(req@.opcode_raw(), interests_of(req@), events, poll_events),
{
    let interests: i32 = match req.op() {
        RequestData::Socket(sock) => sock.interests as i32,
        _ => 0,
    };
    let is_poll_op = req.opcode_raw() == OP_SOCKET_POLL;
    let op_poll_events = interests & poll_events;
    if !is_poll_op && (interests & events) != 0 {
        PendingAction::Transfer
    } else if is_poll_op && op_poll_events != 0 {
        if (interests & (INTEREST_ONESHOT as i32)) != 0 {
            PendingAction::CompleteOneShot(op_poll_events)
        } else {
            PendingAction::Multishot(op_poll_events)
        }
    } else {
        PendingAction::Keep
    }
}

/// The readiness a transfer of `req` waits for: readable for a receive,
/// writable for a send.
pub fn transfer_interest(req: &Request) -> (interest: u32)
    requires
        req@.opcode_raw() == OP_SOCKET_RECV || req@.opcode_raw() == OP_SOCKET_SEND,
    ensures
        interest == if req@.opcode_raw() == OP_SOCKET_RECV {
            INTEREST_READABLE
        } else {
            INTEREST_WRITABLE
        },
{
    if req.opcode_raw() == OP_SOCKET_RECV {
        INTEREST_READABLE
    } else {
        INTEREST_WRITABLE
    }
}

/// Applies the outcome `status` of a transfer to the socket request `req`:
/// a length counts as done, and the request completes with its total once
/// all is done; an error completes it with the error and marks the events
/// (`events` for transfers, `poll_events` for polls) as in error. Tells
/// whether the request keeps waiting.
pub fn resume_socket_request(req: &mut Request, status: i32, events: &mut i32, poll_events: &mut i32) -> (again: bool)
    requires
        old(req)@.op is Socket,
        !old(req)@.has_concurrent_flag(),
        socket_of(old(req)@).done <= socket_of(old(req)@).todo,
        transfer_status_ok(old(req)@, status),
    ensures
        again == spec_resume_again(old(req)@, status),
        final(req)@ == spec_resumed(old(req)@, status),
        *final(events) == spec_events_after(*old(events), status),
        *final(poll_events) == spec_poll_events_after(*old(poll_events), status),
{
    match req.op() {
        RequestData::Socket(sock) => {
            if status >= 0 {
                let done: u32 = sock.done + status as u32;
                req.set_op(RequestData::Socket(SocketRequest { done, ..sock }));
                if done >= sock.todo {
                    proof {
                        assert(done as i32 != i32::MIN) by (bit_vector)
                            requires
                                done != 0x8000_0000u32,
                        ;
                    }
                    req.set_status_local(done as i32);
                    false
                } else {
                    true
                }
            } else {
                *events = *events & !(INTEREST_READABLE as i32);
                *events = *events & !(INTEREST_WRITABLE as i32);
                *events = *events | (INTEREST_ERROR as i32);
                *poll_events = *poll_events | (INTEREST_ERROR as i32);
                req.set_status_local(status);
                false
            }
        },
        _ => false,
    }
}

/// The two lists share no request.
pub open spec fn disjoint(a: Seq<usize>, b: Seq<usize>) -> bool {
    forall|k: usize| !(a.contains(k) && b.contains(k))
}

/// The parts of a request that decide what it waits for are the same.
pub open spec fn same_kind(a: RequestModel, b: RequestModel) -> bool {
    a.op == b.op && a.flags_and_op_code == b.flags_and_op_code
}

/// The requests of a list keep what they wait for.
proof fn lemma_pending_ok_frame(a: Seq<Request>, b: Seq<Request>, nodes: Seq<usize>)
    requires
        all_pending_ok(a, nodes),
        a.len() <= b.len(),
        forall|j: int| 0 <= j < a.len() ==> same_kind(#[trigger] b[j]@, a[j]@),
    ensures
        all_pending_ok(b, nodes),
{
    assert forall|i: int| 0 <= i < nodes.len() implies #[trigger] nodes[i] < b.len() && pending_ok(
        b[nodes[i] as int]@,
    ) by {
        assert(nodes[i] < a.len() && pending_ok(a[nodes[i] as int]@));
        assert(same_kind(b[nodes[i] as int]@, a[nodes[i] as int]@));
    }
}

/// A list that does not hold `n` keeps what it waits for when the request
/// at `n` changes.
proof fn lemma_pending_ok_update(a: Seq<Request>, n: int, r: Request, nodes: Seq<usize>)
    requires
        all_pending_ok(a, nodes),
        0 <= n < a.len(),
        !nodes.contains(n as usize),
    ensures
        all_pending_ok(a.update(n, r), nodes),
{
    assert forall|i: int| 0 <= i < nodes.len() implies #[trigger] nodes[i] < a.update(n, r).len()
        && pending_ok(a.update(n, r)[nodes[i] as int]@) by {
        assert(nodes[i] < a.len());
        assert(nodes.contains(nodes[i]));
    }
}

/// A list that does not hold `n` stays linked when the request at `n`
/// changes without changing its links.
proof fn lemma_links_update(a: Seq<Request>, n: int, r: Request, nodes: Seq<usize>)
    requires
        links_ok(a, nodes),
        0 <= n < a.len(),
        !nodes.contains(n as usize),
    ensures
        links_ok(a.update(n, r), nodes),
{
    assert forall|i: int| 0 <= i < nodes.len() implies #[trigger] crate::links::node_linked(
        a.update(n, r),
        nodes,
        i,
    ) by {
        assert(crate::links::node_linked(a, nodes, i));
        assert(nodes.contains(nodes[i]));
    }
}

/// A poll reports only events it watches, so never the pending marker.
proof fn lemma_masked_events(interests: u16, poll_events: i32)
    ensures
        (interests as i32) & poll_events >= 0,
{
    assert((interests as i32) & poll_events >= 0) by (bit_vector);
}

/// Without its first request, a list shares nothing it did not share.
proof fn lemma_disjoint_drop_first(a: Seq<usize>, b: Seq<usize>)
    requires
        disjoint(a, b),
        a.len() > 0,
    ensures
        disjoint(a.drop_first(), b),
{
    assert forall|k: usize| !(a.drop_first().contains(k) && b.contains(k)) by {
        if a.drop_first().contains(k) {
            let j = choose|j: int| 0 <= j < a.drop_first().len() && a.drop_first()[j] == k;
            assert(a[j + 1] == k);
            assert(a.contains(k));
        }
    }
}

/// A list with one more request shares nothing more when the other list
/// does not hold it.
proof fn lemma_disjoint_push(a: Seq<usize>, b: Seq<usize>, x: usize)
    requires
        disjoint(a, b),
        !b.contains(x),
    ensures
        disjoint(a.push(x), b),
        disjoint(b, a.push(x)),
{
    assert forall|k: usize| !(a.push(x).contains(k) && b.contains(k)) by {
        if a.push(x).contains(k) && k != x {
            let j = choose|j: int| 0 <= j < a.push(x).len() && a.push(x)[j] == k;
            assert(j < a.len());
            assert(a[j] == k);
        }
    }
}

/// The first request of a list without duplicates is not among the rest.
proof fn lemma_first_not_in_rest(nodes: Seq<usize>)
    requires
        nodes.no_duplicates(),
        nodes.len() > 0,
    ensures
        !nodes.drop_first().contains(nodes[0]),
{
    if nodes.drop_first().contains(nodes[0]) {
        let j = choose|j: int| 0 <= j < nodes.drop_first().len() && nodes.drop_first()[j] == nodes[0];
        assert(nodes[j + 1] == nodes[0]);
    }
}

/// A linked list holds no position past the arena.
proof fn lemma_links_below(reqs: Seq<Request>, nodes: Seq<usize>)
    requires
        links_ok(reqs, nodes),
    ensures
        forall|k: usize| k >= reqs.len() ==> !nodes.contains(k),
{
    assert forall|k: usize| k >= reqs.len() implies !nodes.contains(k) by {
        if nodes.contains(k) {
            let j = choose|j: int| 0 <= j < nodes.len() && nodes[j] == k;
            assert(crate::links::node_linked(reqs, nodes, j));
        }
    }
}

/// The last request of a list is in it.
proof fn lemma_last_in(nodes: Seq<usize>)
    ensures
        match last_of(nodes) {
            Some(l) => nodes.contains(l),
            None => true,
        },
{
    if nodes.len() > 0 {
        assert(nodes[nodes.len() - 1] == nodes[nodes.len() - 1]);
    }
}

/// Without its first request, every request of a list can still wait.
proof fn lemma_pending_ok_drop_first(reqs: Seq<Request>, nodes: Seq<usize>)
    requires
        all_pending_ok(reqs, nodes),
        nodes.len() > 0,
    ensures
        all_pending_ok(reqs, nodes.drop_first()),
{
    assert forall|i: int| 0 <= i < nodes.drop_first().len() implies #[trigger] nodes.drop_first()[i]
        < reqs.len() && pending_ok(reqs[nodes.drop_first()[i] as int]@) by {
        assert(nodes[i + 1] < reqs.len());
    }
}

/// The socket requests of one descriptor that wait for readiness, in the
/// order they were added.
pub struct PendingOps {
    pending: RequestList,
}

impl View for PendingOps {
    type V = Seq<usize>;

    /// The waiting requests, by position in the arena, first added first.
    closed spec fn view(&self) -> Seq<usize> {
        self.pending@
    }
}

impl PendingOps {
    /// The list's own bookkeeping holds.
    pub closed spec fn inv(&self) -> bool {
        self.pending.inv()
    }

    /// The waiting requests are linked in `reqs` and can wait for
    /// readiness.
    pub open spec fn wf(&self, reqs: Seq<Request>) -> bool {
        &&& self.inv()
        &&& links_ok(reqs, self@)
        &&& all_pending_ok(reqs, self@)
    }

    /// No waiting request.
    pub fn new() -> (p: PendingOps)
        ensures
            p.inv(),
            p@ == Seq::<usize>::empty(),
    {
        PendingOps { pending: RequestList::new() }
    }

    /// Tells whether no request waits.
    pub fn is_empty(&self) -> (b: bool)
        requires
            self.inv(),
        ensures
            b == (self@.len() == 0),
    {
        self.pending.is_empty()
    }

    /// Adds the unlinked socket request `req` at the back of the waiting
    /// requests.
    pub fn add(&mut self, reqs: &mut Vec<Request>, req: usize)
        requires
            old(self).wf(old(reqs)@),
            req < old(reqs)@.len(),
            !old(reqs)@[req as int]@.in_list,
            pending_ok(old(reqs)@[req as int]@),
        ensures
            final(self).wf(final(reqs)@),
            final(self)@ == old(self)@.push(req),
            same_outside(
                old(reqs)@,
                final(reqs)@,
                match last_of(old(self)@) {
                    Some(l) => set![req, l],
                    None => set![req],
                },
            ),
    {
        let ghost r0 = reqs@;
        self.pending.push_back(reqs, req);
        proof {
            lemma_pending_ok_frame(r0, reqs@, old(self)@);
            assert forall|i: int| 0 <= i < self@.len() implies #[trigger] self@[i] < reqs@.len() && pending_ok(
                reqs@[self@[i] as int]@,
            ) by {
                if i < old(self)@.len() {
                    assert(self@[i] == old(self)@[i]);
                } else {
                    assert(self@[i] == req);
                    assert(same_kind(reqs@[req as int]@, r0[req as int]@));
                }
            }
        }
    }

    /// Starts handling `events`: all waiting requests move to a new pass,
    /// in order; those that keep waiting come back as the pass goes.
    pub fn begin_event(&mut self, events: i32) -> (pass: EventPass)
        requires
            old(self).inv(),
        ensures
            final(self).inv(),
            final(self)@ == Seq::<usize>::empty(),
            pass.inv(),
            pass.todo() == old(self)@,
            pass.done() == Seq::<usize>::empty(),
            pass.events_left() == events,
            pass.poll_events_left() == events,
            pass.in_flight() is None,
    {
        let todo = self.pending.take();
        EventPass { todo, done: ReadyList::new(), events, poll_events: events, in_flight: None }
    }
}

/// What one step of a pass did.
#[derive(Debug, Clone, Copy, PartialEq, Eq, Structural)]
pub enum PassStep {
    /// The request at this position must move data now; hand the outcome
    /// to `finish_transfer`.
    Transfer(usize),
    /// One request was handled; step again.
    Continue,
    /// Every request was handled and the completed ones are ready.
    Finished,
}

/// One pass over the waiting requests for a readiness event.
pub struct EventPass {
    todo: RequestList,
    done: ReadyList,
    events: i32,
    poll_events: i32,
    in_flight: Option<usize>,
}

impl EventPass {
    /// The requests not handled yet, in order.
    pub closed spec fn todo(&self) -> Seq<usize> {
        self.todo@
    }

    /// The requests completed so far, in order.
    pub closed spec fn done(&self) -> Seq<usize> {
        self.done@
    }

    /// The events still ready for transfers.
    pub closed spec fn events_left(&self) -> i32 {
        self.events
    }

    /// The events still reported to polls.
    pub closed spec fn poll_events_left(&self) -> i32 {
        self.poll_events
    }

    /// The request whose transfer is under way, if any.
    pub closed spec fn in_flight(&self) -> Option<usize> {
        self.in_flight
    }

    /// The lists' own bookkeeping holds.
    pub closed spec fn inv(&self) -> bool {
        &&& self.todo.inv()
        &&& self.done.inv()
    }

    /// The pass, the waiting requests `ops` and the `ready` list are linked
    /// in `reqs` and share no request; the requests still to handle, and
    /// the one whose transfer is under way, can wait for readiness.
    pub open spec fn wf(&self, ops: PendingOps, ready: ReadyList, reqs: Seq<Request>) -> bool {
        &&& self.inv()
        &&& ops.wf(reqs)
        &&& ready.wf(reqs)
        &&& links_ok(reqs, self.todo())
        &&& links_ok(reqs, self.done())
        &&& all_pending_ok(reqs, self.todo())
        &&& disjoint(self.todo(), self.done())
        &&& disjoint(self.todo(), ops@)
        &&& disjoint(self.todo(), ready@)
        &&& disjoint(self.done(), ops@)
        &&& disjoint(self.done(), ready@)
        &&& disjoint(ops@, ready@)
        &&& match self.in_flight() {
            Some(i) => i < reqs.len() && !reqs[i as int]@.in_list && pending_ok(reqs[i as int]@),
            None => true,
        }
    }

    /// The events still ready for transfers.
    pub fn events(&self) -> (e: i32)
        ensures
            e == self.events_left(),
    {
        self.events
    }

    /// The events still reported to polls.
    pub fn poll_events(&self) -> (e: i32)
        ensures
            e == self.poll_events_left(),
    {
        self.poll_events
    }

    /// Handles the next request of the pass, in order: a transfer is left
    /// to the caller (the request is then in flight); a one-shot poll
    /// completes; a multishot poll puts a completed instance on `ready` and
    /// keeps waiting; a request that does not watch the events keeps
    /// waiting. Once all are handled, the completed ones go to the back of
    /// `ready`.
    #[verifier::rlimit(40)]
    pub fn step(&mut self, ops: &mut PendingOps, reqs: &mut Vec<Request>, ready: &mut ReadyList) -> (s: PassStep)
        requires
            old(self).wf(*old(ops), *old(ready), old(reqs)@),
            old(self).in_flight() is None,
        ensures
            final(self).wf(*final(ops), *final(ready), final(reqs)@),
            final(self).events_left() == old(self).events_left(),
            final(self).poll_events_left() == old(self).poll_events_left(),
            old(reqs)@.len() <= final(reqs)@.len(),
            old(self).todo().len() == 0 ==> {
                &&& s == PassStep::Finished
                &&& final(self).todo() == old(self).todo()
                &&& final(self).done() == Seq::<usize>::empty()
                &&& final(self).in_flight() is None
                &&& final(ops)@ == old(ops)@
                &&& final(ready)@ == old(ready)@ + old(self).done()
                &&& final(reqs)@.len() == old(reqs)@.len()
                &&& forall|j: int|
                    0 <= j < old(reqs)@.len() ==> (#[trigger] final(reqs)@[j])@.same_payload(
                        old(reqs)@[j]@,
                    )
            },
            old(self).todo().len() > 0 ==> ({
                let i = old(self).todo()[0];
                let r = old(reqs)@[i as int]@;
                let n = old(reqs)@.len();
                &&& final(self).todo() == old(self).todo().drop_first()
                &&& forall|j: int|
                    0 <= j < n && j != i ==> (#[trigger] final(reqs)@[j])@.same_payload(
                        old(reqs)@[j]@,
                    )
                &&& match spec_pending_action(
                    r.opcode_raw(),
                    interests_of(r),
                    old(self).events_left(),
                    old(self).poll_events_left(),
                ) {
                    PendingAction::Transfer => {
                        &&& s == PassStep::Transfer(i)
                        &&& final(self).in_flight() == Some(i)
                        &&& final(self).done() == old(self).done()
                        &&& final(ops)@ == old(ops)@
                        &&& final(ready)@ == old(ready)@
                        &&& final(reqs)@.len() == n
                        &&& final(reqs)@[i as int]@.same_payload(r)
                    },
                    PendingAction::CompleteOneShot(e) => {
                        &&& s == PassStep::Continue
                        &&& final(self).in_flight() is None
                        &&& final(self).done() == old(self).done().push(i)
                        &&& final(ops)@ == old(ops)@
                        &&& final(ready)@ == old(ready)@
                        &&& final(reqs)@.len() == n
                        &&& final(reqs)@[i as int]@.same_payload(with_status(r, e))
                    },
                    PendingAction::Multishot(e) => {
                        &&& s == PassStep::Continue
                        &&& final(self).in_flight() is None
                        &&& final(self).done() == old(self).done()
                        &&& final(ops)@ == old(ops)@.push(i)
                        &&& final(ready)@ == old(ready)@.push(n as usize)
                        &&& final(reqs)@.len() == n + 1
                        &&& final(reqs)@[i as int]@.same_payload(r)
                        &&& final(reqs)@[n as int]@.same_payload((RequestModel { status: e, ..r }))
                    },
                    PendingAction::Keep => {
                        &&& s == PassStep::Continue
                        &&& final(self).in_flight() is None
                        &&& final(self).done() == old(self).done()
                        &&& final(ops)@ == old(ops)@.push(i)
                        &&& final(ready)@ == old(ready)@
                        &&& final(reqs)@.len() == n
                        &&& final(reqs)@[i as int]@.same_payload(r)
                    },
                }
            }),
    {
        let ghost r0 = reqs@;
        let ghost todo0 = self.todo@;
        let ghost done0 = self.done@;
        let ghost ops0 = ops@;
        let ghost ready0 = ready@;
        match self.todo.pop_front(reqs) {
            None => {
                proof {
                    lemma_last_in(ready0);
                }
                ready.push_back_all(reqs, &mut self.done);
                proof {
                    if done0.len() > 0 {
                        let t = match last_of(ready0) {
                            Some(l) => set![l],
                            None => Set::<usize>::empty(),
                        };
                        lemma_links_frame_outside(r0, reqs@, t, ops0);
                        lemma_pending_ok_frame(r0, reqs@, ops0);
                    }
                    assert forall|k: usize| !(ops0.contains(k) && (ready0 + done0).contains(k)) by {
                        if (ready0 + done0).contains(k) {
                            let j = choose|j: int| 0 <= j < (ready0 + done0).len() && (ready0 + done0)[j] == k;
                            if j < ready0.len() {
                                assert(ready0[j] == k);
                            } else {
                                assert(done0[j - ready0.len()] == k);
                            }
                        }
                    }
                }
                PassStep::Finished
            },
            Some(i) => {
                let ghost r1 = reqs@;
                proof {
                    assert(todo0[0] == i);
                    assert(todo0.contains(i));
                    assert(todo0[0] < r0.len());
                    lemma_first_not_in_rest(todo0);
                    lemma_links_frame_outside(r0, r1, set![i], done0);
                    lemma_links_frame_outside(r0, r1, set![i], ops0);
                    lemma_links_frame_outside(r0, r1, set![i], ready0);
                    lemma_pending_ok_frame(r0, r1, todo0);
                    lemma_pending_ok_drop_first(r1, todo0);
                    lemma_pending_ok_frame(r0, r1, ops0);
                    lemma_disjoint_drop_first(todo0, done0);
                    lemma_disjoint_drop_first(todo0, ops0);
                    lemma_disjoint_drop_first(todo0, ready0);
                    assert(same_kind(r1[i as int]@, r0[i as int]@));
                    assert(pending_ok(r1[i as int]@));
                }
                let action = pending_action(&reqs[i], self.events, self.poll_events);
                match action {
                    PendingAction::Transfer => {
                        self.in_flight = Some(i);
                        PassStep::Transfer(i)
                    },
                    PendingAction::CompleteOneShot(e) => {
                        proof {
                            lemma_masked_events(r1[i as int]@.op->Socket_0.interests, self.poll_events);
                        }
                        reqs[i].set_status_local(e);
                        let ghost r2 = reqs@;
                        proof {
                            assert(r2 == r1.update(i as int, r2[i as int]));
                            lemma_links_update(r1, i as int, r2[i as int], self.todo@);
                            lemma_links_update(r1, i as int, r2[i as int], done0);
                            lemma_links_update(r1, i as int, r2[i as int], ops0);
                            lemma_links_update(r1, i as int, r2[i as int], ready0);
                            lemma_pending_ok_frame(r1, r2, self.todo@);
                            lemma_pending_ok_frame(r1, r2, ops0);
                            lemma_last_in(done0);
                        }
                        self.done.push_back(reqs, i);
                        proof {
                            let t = match last_of(done0) {
                                Some(l) => set![i, l],
                                None => set![i],
                            };
                            lemma_links_frame_outside(r2, reqs@, t, self.todo@);
                            lemma_links_frame_outside(r2, reqs@, t, ops0);
                            lemma_links_frame_outside(r2, reqs@, t, ready0);
                            lemma_pending_ok_frame(r2, reqs@, self.todo@);
                            lemma_pending_ok_frame(r2, reqs@, ops0);
                            lemma_disjoint_push(done0, self.todo@, i);
                            lemma_disjoint_push(done0, ops0, i);
                            lemma_disjoint_push(done0, ready0, i);
                        }
                        PassStep::Continue
                    },
                    PendingAction::Multishot(e) => {
                        proof {
                            lemma_masked_events(r1[i as int]@.op->Socket_0.interests, self.poll_events);
                        }
                        let instance = reqs[i].instance(e);
                        reqs.push(instance);
                        let n = reqs.len() - 1;
                        let ghost r2 = reqs@;
                        proof {
                            assert(n == r1.len());
                            lemma_links_push(r1, instance, self.todo@);
                            lemma_links_push(r1, instance, done0);
                            lemma_links_push(r1, instance, ops0);
                            lemma_links_push(r1, instance, ready0);
                            lemma_links_below(r1, self.todo@);
                            lemma_links_below(r1, done0);
                            lemma_links_below(r1, ops0);
                            lemma_links_below(r1, ready0);
                            lemma_pending_ok_frame(r1, r2, self.todo@);
                            lemma_pending_ok_frame(r1, r2, ops0);
                            lemma_last_in(ready0);
                        }
                        ready.push_back(reqs, n);
                        let ghost r3 = reqs@;
                        proof {
                            let t = match last_of(ready0) {
                                Some(l) => set![n, l],
                                None => set![n],
                            };
                            lemma_links_frame_outside(r2, r3, t, self.todo@);
                            lemma_links_frame_outside(r2, r3, t, done0);
                            lemma_links_frame_outside(r2, r3, t, ops0);
                            lemma_pending_ok_frame(r2, r3, self.todo@);
                            lemma_pending_ok_frame(r2, r3, ops0);
                            lemma_disjoint_push(ready0, self.todo@, n);
                            lemma_disjoint_push(ready0, done0, n);
                            lemma_disjoint_push(ready0, ops0, n);
                            lemma_last_in(ops0);
                            assert(!ready@.contains(i)) by {
                                if ready@.contains(i) {
                                    let j = choose|j: int| 0 <= j < ready@.len() && ready@[j] == i;
                                    if j < ready0.len() {
                                        assert(ready0[j] == i);
                                    }
                                }
                            }
                            assert(pending_ok(r3[i as int]@)) by {
                                assert(same_kind(r3[i as int]@, r2[i as int]@));
                            }
                        }
                        ops.pending.push_back(reqs, i);
                        proof {
                            let t = match last_of(ops0) {
                                Some(l) => set![i, l],
                                None => set![i],
                            };
                            lemma_links_frame_outside(r3, reqs@, t, self.todo@);
                            lemma_links_frame_outside(r3, reqs@, t, done0);
                            lemma_links_frame_outside(r3, reqs@, t, ready@);
                            lemma_pending_ok_frame(r3, reqs@, self.todo@);
                            lemma_pending_ok_frame(r3, reqs@, ops0);
                            assert forall|x: int| 0 <= x < ops@.len() implies #[trigger] ops@[x]
                                < reqs@.len() && pending_ok(reqs@[ops@[x] as int]@) by {
                                if x < ops0.len() {
                                    assert(ops@[x] == ops0[x]);
                                } else {
                                    assert(ops@[x] == i);
                                    assert(same_kind(reqs@[i as int]@, r3[i as int]@));
                                }
                            }
                            lemma_disjoint_push(ops0, self.todo@, i);
                            lemma_disjoint_push(ops0, done0, i);
                            lemma_disjoint_push(ops0, ready@, i);
                        }
                        PassStep::Continue
                    },
                    PendingAction::Keep => {
                        proof {
                            lemma_last_in(ops0);
                        }
                        ops.pending.push_back(reqs, i);
                        proof {
                            let t = match last_of(ops0) {
                                Some(l) => set![i, l],
                                None => set![i],
                            };
                            lemma_links_frame_outside(r1, reqs@, t, self.todo@);
                            lemma_links_frame_outside(r1, reqs@, t, done0);
                            lemma_links_frame_outside(r1, reqs@, t, ready0);
                            lemma_pending_ok_frame(r1, reqs@, self.todo@);
                            lemma_pending_ok_frame(r1, reqs@, ops0);
                            assert forall|x: int| 0 <= x < ops@.len() implies #[trigger] ops@[x]
                                < reqs@.len() && pending_ok(reqs@[ops@[x] as int]@) by {
                                if x < ops0.len() {
                                    assert(ops@[x] == ops0[x]);
                                } else {
                                    assert(ops@[x] == i);
                                    assert(same_kind(reqs@[i as int]@, r1[i as int]@));
                                }
                            }
                            lemma_disjoint_push(ops0, self.todo@, i);
                            lemma_disjoint_push(ops0, done0, i);
                            lemma_disjoint_push(ops0, ready0, i);
                        }
                        PassStep::Continue
                    },
                }
            },
        }
    }

    /// Applies the outcome of the transfer under way: `status` is the
    /// length moved or the negative `errno`, and `events_after` the events
    /// still ready for transfers once it is done (a would-block clears the
    /// one it waited for). The request keeps waiting, at the back of `ops`,
    /// while data is left to move; else it completes, with its total or
    /// the error, and joins the completed ones. Tells whether it keeps
    /// waiting.
    #[verifier::rlimit(40)]
    pub fn finish_transfer(
        &mut self,
        ops: &mut PendingOps,
        reqs: &mut Vec<Request>,
        ready: &ReadyList,
        status: i32,
        events_after: i32,
    ) -> (again: bool)
        requires
            old(self).wf(*old(ops), *ready, old(reqs)@),
            old(self).in_flight() is Some,
            transfer_status_ok(old(reqs)@[old(self).in_flight()->0 as int]@, status),
        ensures
            final(self).wf(*final(ops), *ready, final(reqs)@),
            final(self).in_flight() is None,
            final(self).todo() == old(self).todo(),
            final(self).events_left() == spec_events_after(events_after, status),
            final(self).poll_events_left() == spec_poll_events_after(
                old(self).poll_events_left(),
                status,
            ),
            final(reqs)@.len() == old(reqs)@.len(),
            ({
                let i = old(self).in_flight()->0;
                let r = old(reqs)@[i as int]@;
                &&& again == spec_resume_again(r, status)
                &&& final(reqs)@[i as int]@.same_payload(spec_resumed(r, status))
                &&& forall|j: int|
                    0 <= j < old(reqs)@.len() && j != i ==> (#[trigger] final(reqs)@[j])@.same_payload(
                        old(reqs)@[j]@,
                    )
                &&& again ==> final(ops)@ == old(ops)@.push(i) && final(self).done() == old(
                    self,
                ).done()
                &&& !again ==> final(self).done() == old(self).done().push(i) && final(ops)@ == old(
                    ops,
                )@
            }),
    {
        let ghost r0 = reqs@;
        let ghost todo0 = self.todo@;
        let ghost done0 = self.done@;
        let ghost ops0 = ops@;
        let i = match self.in_flight {
            Some(i) => i,
            None => 0,
        };
        proof {
            lemma_unlinked_not_in(r0, todo0, i);
            lemma_unlinked_not_in(r0, done0, i);
            lemma_unlinked_not_in(r0, ops0, i);
            lemma_unlinked_not_in(r0, ready@, i);
        }
        self.in_flight = None;
        self.events = events_after;
        let mut req = reqs[i];
        let again = resume_socket_request(&mut req, status, &mut self.events, &mut self.poll_events);
        reqs.set(i, req);
        let ghost r1 = reqs@;
        proof {
            let sock = socket_of(r0[i as int]@);
            if status >= 0 {
                let total = (sock.done + status) as u32;
                assert(total as i32 != i32::MIN) by (bit_vector)
                    requires
                        total != 0x8000_0000u32,
                ;
            }
            lemma_links_update(r0, i as int, req, todo0);
            lemma_links_update(r0, i as int, req, done0);
            lemma_links_update(r0, i as int, req, ops0);
            lemma_links_update(r0, i as int, req, ready@);
            lemma_pending_ok_update(r0, i as int, req, todo0);
            lemma_pending_ok_update(r0, i as int, req, ops0);
        }
        if again {
            proof {
                lemma_last_in(ops0);
            }
            ops.pending.push_back(reqs, i);
            proof {
                let t = match last_of(ops0) {
                    Some(l) => set![i, l],
                    None => set![i],
                };
                lemma_links_frame_outside(r1, reqs@, t, todo0);
                lemma_links_frame_outside(r1, reqs@, t, done0);
                lemma_links_frame_outside(r1, reqs@, t, ready@);
                lemma_pending_ok_frame(r1, reqs@, todo0);
                lemma_pending_ok_frame(r1, reqs@, ops0);
                assert forall|x: int| 0 <= x < ops@.len() implies #[trigger] ops@[x] < reqs@.len()
                    && pending_ok(reqs@[ops@[x] as int]@) by {
                    if x < ops0.len() {
                        assert(ops@[x] == ops0[x]);
                    } else {
                        assert(ops@[x] == i);
                        assert(same_kind(reqs@[i as int]@, r1[i as int]@));
                    }
                }
                lemma_disjoint_push(ops0, todo0, i);
                lemma_disjoint_push(ops0, done0, i);
                lemma_disjoint_push(ops0, ready@, i);
            }
        } else {
            proof {
                lemma_last_in(done0);
            }
            self.done.push_back(reqs, i);
            proof {
                let t = match last_of(done0) {
                    Some(l) => set![i, l],
                    None => set![i],
                };
                lemma_links_frame_outside(r1, reqs@, t, todo0);
                lemma_links_frame_outside(r1, reqs@, t, ops0);
                lemma_links_frame_outside(r1, reqs@, t, ready@);
                lemma_pending_ok_frame(r1, reqs@, todo0);
                lemma_pending_ok_frame(r1, reqs@, ops0);
                lemma_disjoint_push(done0, todo0, i);
                lemma_disjoint_push(done0, ops0, i);
                lemma_disjoint_push(done0, ready@, i);
            }
        }
        again
    }
} // impl EventPass

/// A request completes once: the first status it is given sticks, whatever
/// comes after.
pub proof fn law_first_status_sticks(r: RequestModel, first: i32, second: i32)
    requires
        first != PENDING,
    ensures
        with_status(with_status(r, first), second) == with_status(r, first),
{
}

/// A transfer that leaves data to move keeps the request waiting with the
/// bytes counted; one that moves the rest completes the request with its
/// total; an error completes it with the error. Either way the request
/// stays a socket request with no more done than asked.
pub proof fn law_resume_keeps_request_waiting_or_completes(r: RequestModel, status: i32)
    requires
        pending_ok(r),
        transfer_status_ok(r, status),
    ensures
        spec_resume_again(r, status) ==> pending_ok(spec_resumed(r, status))
            && spec_resumed(r, status).status == r.status,
        !spec_resume_again(r, status) && r.status == PENDING ==> spec_resumed(r, status).status
            != PENDING,
        spec_resumed(r, status).op is Socket,
        socket_of(spec_resumed(r, status)).done <= socket_of(spec_resumed(r, status)).todo,
{
    let sock = socket_of(r);
    if status >= 0 {
        let done = (sock.done + status) as u32;
        assert(done as i32 != i32::MIN) by (bit_vector)
            requires
                done != 0x8000_0000u32,
        ;
    }
}

/// What an event does to a waiting socket request: a receive or send moves
/// data exactly when it watches one of the ready `events`; a poll reports
/// exactly the events it watches among the ready `poll_events` (so never an
/// event that is not ready), completing when it is one-shot and reporting
/// through a new instance otherwise, and only when some watched event is
/// ready; every other request keeps waiting.
pub proof fn law_polls_report_watched_ready_events(
    opcode: u8,
    interests: i32,
    events: i32,
    poll_events: i32,
)
    ensures
        match spec_pending_action(opcode, interests, events, poll_events) {
            PendingAction::Transfer => opcode != OP_SOCKET_POLL && interests & events != 0,
            PendingAction::CompleteOneShot(e) => {
                &&& opcode == OP_SOCKET_POLL
                &&& e == interests & poll_events
                &&& e != 0
                &&& e & poll_events == e
                &&& interests & (INTEREST_ONESHOT as i32) != 0
            },
            PendingAction::Multishot(e) => {
                &&& opcode == OP_SOCKET_POLL
                &&& e == interests & poll_events
                &&& e != 0
                &&& e & poll_events == e
                &&& interests & (INTEREST_ONESHOT as i32) == 0
            },
            PendingAction::Keep => {
                &&& opcode == OP_SOCKET_POLL ==> interests & poll_events == 0
                &&& opcode != OP_SOCKET_POLL ==> interests & events == 0
            },
        },
{
    let e = interests & poll_events;
    assert(e & poll_events == e) by (bit_vector)
        requires
            e == interests & poll_events,
    ;
}

/// A transfer outcome on a waiting request: a length `n` adds `n` to the
/// bytes done and changes nothing else of the request; the request keeps
/// waiting while bytes are left and otherwise completes with the total done;
/// an error completes it with the error, its bytes untouched. An error
/// also marks the socket in error and no longer readable or writable for
/// transfers, and in error for polls, leaving every other event as it was;
/// a length leaves the events alone.
pub proof fn law_transfer_counts_bytes(
    r: RequestModel,
    status: i32,
    events: i32,
    poll_events: i32,
)
    requires
        pending_ok(r),
        transfer_status_ok(r, status),
        r.status == PENDING,
    ensures
        status >= 0 ==> {
            let total = socket_of(r).done + status;
            &&& socket_of(spec_resumed(r, status)).done == total
            &&& spec_resumed(r, status).op == RequestData::Socket(
                SocketRequest { done: total as u32, ..socket_of(r) },
            )
            &&& spec_resume_again(r, status) <==> total < socket_of(r).todo
            &&& spec_resume_again(r, status) ==> spec_resumed(r, status).status == PENDING
            &&& !spec_resume_again(r, status) ==> spec_resumed(r, status).status == total as i32
            &&& spec_events_after(events, status) == events
            &&& spec_poll_events_after(poll_events, status) == poll_events
        },
        status < 0 ==> {
            let mask = (INTEREST_READABLE | INTEREST_WRITABLE | INTEREST_ERROR) as i32;
            let after = spec_events_after(events, status);
            let poll_after = spec_poll_events_after(poll_events, status);
            &&& !spec_resume_again(r, status)
            &&& spec_resumed(r, status).status == status
            &&& spec_resumed(r, status).op == r.op
            &&& after & (INTEREST_READABLE as i32) == 0
            &&& after & (INTEREST_WRITABLE as i32) == 0
            &&& after & (INTEREST_ERROR as i32) != 0
            &&& after & !mask == events & !mask
            &&& poll_after & (INTEREST_ERROR as i32) != 0
            &&& poll_after & !(INTEREST_ERROR as i32) == poll_events & !(INTEREST_ERROR as i32)
        },
        spec_resumed(r, status).completion_queue == r.completion_queue,
        spec_resumed(r, status).flags_and_op_code == r.flags_and_op_code,
{
    let sock = socket_of(r);
    if status >= 0 {
        let done = (sock.done + status) as u32;
        assert(done as i32 != i32::MIN) by (bit_vector)
            requires
                done != 0x8000_0000u32,
        ;
    } else {
        let after = spec_events_after(events, status);
        let poll_after = spec_poll_events_after(poll_events, status);
        assert(after == (events & !1i32 & !4i32) | 8i32);
        assert(poll_after == poll_events | 8i32);
        assert((1u32 | 4u32 | 8u32) as i32 == 13i32) by (bit_vector);
        assert(after & 1i32 == 0 && after & 4i32 == 0 && after & 8i32 != 0 && after & !13i32
            == events & !13i32) by (bit_vector)
            requires
                after == (events & !1i32 & !4i32) | 8i32,
        ;
        assert(poll_after & 8i32 != 0 && poll_after & !8i32 == poll_events & !8i32) by (bit_vector)
            requires
                poll_after == poll_events | 8i32,
        ;
    }
}

} // verus!
