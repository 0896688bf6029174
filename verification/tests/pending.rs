use xaio::pending_ops::{
    pending_action, resume_socket_request, transfer_interest, PassStep, PendingAction, PendingOps,
};
use xaio::ready_list::ReadyList;
use xaio::request::{OpCode, Request, RequestData, SocketRequest, PENDING};
use xaio::selector::{INTEREST_ERROR, INTEREST_READABLE, INTEREST_WRITABLE};
use xaio::socket::RawSocketFd;

fn socket_request(op: OpCode, interests: u32, todo: u32) -> Request {
    Request::prepared(
        op,
        0,
        RequestData::Socket(SocketRequest {
            socket: RawSocketFd::new(3),
            interests: interests as u16,
            events: 0,
            todo,
            done: 0,
        }),
    )
}

fn done_of(r: &Request) -> u32 {
    match r.op() {
        RequestData::Socket(s) => s.done,
        _ => 0,
    }
}

#[test]
fn actions_follow_interests() {
    let poll = socket_request(OpCode::SOCKET_POLL, INTEREST_READABLE, 0);
    let recv = socket_request(OpCode::SOCKET_RECV, INTEREST_READABLE, 8);
    let r = INTEREST_READABLE as i32;
    let w = INTEREST_WRITABLE as i32;
    assert_eq!(pending_action(&poll, r, r), PendingAction::Multishot(r));
    assert_eq!(pending_action(&poll, r, w), PendingAction::Keep);
    assert_eq!(pending_action(&recv, r, r), PendingAction::Transfer);
    assert_eq!(pending_action(&recv, w, w), PendingAction::Keep);
    assert_eq!(transfer_interest(&recv), INTEREST_READABLE);
    let send = socket_request(OpCode::SOCKET_SEND, INTEREST_WRITABLE, 8);
    assert_eq!(transfer_interest(&send), INTEREST_WRITABLE);
}

#[test]
fn resume_counts_bytes_then_completes() {
    let mut req = socket_request(OpCode::SOCKET_RECV, INTEREST_READABLE, 10);
    let mut events = 5i32;
    let mut poll_events = 1i32;
    assert!(resume_socket_request(&mut req, 6, &mut events, &mut poll_events));
    assert_eq!(done_of(&req), 6);
    assert_eq!(req.status(), PENDING);
    assert!(!resume_socket_request(&mut req, 4, &mut events, &mut poll_events));
    assert_eq!(done_of(&req), 10);
    assert_eq!(req.status(), 10);
    assert_eq!((events, poll_events), (5, 1));
}

#[test]
fn resume_error_marks_the_socket() {
    let mut req = socket_request(OpCode::SOCKET_SEND, INTEREST_WRITABLE, 10);
    let mut events = (INTEREST_READABLE | INTEREST_WRITABLE) as i32;
    let mut poll_events = 0i32;
    assert!(!resume_socket_request(&mut req, -104, &mut events, &mut poll_events));
    assert_eq!(req.status(), -104);
    assert_eq!(events, INTEREST_ERROR as i32);
    assert_eq!(poll_events, INTEREST_ERROR as i32);
    // The first status sticks.
    let mut events = 0i32;
    let mut poll_events = 0i32;
    assert!(!resume_socket_request(&mut req, -32, &mut events, &mut poll_events));
    assert_eq!(req.status(), -104);
}

#[test]
fn event_pass_in_order() {
    let mut reqs = vec![
        socket_request(OpCode::SOCKET_POLL, INTEREST_READABLE, 0),
        socket_request(OpCode::SOCKET_RECV, INTEREST_READABLE, 10),
        socket_request(OpCode::SOCKET_SEND, INTEREST_WRITABLE, 4),
    ];
    let mut ops = PendingOps::new();
    let mut ready = ReadyList::new();
    for i in 0..3 {
        ops.add(&mut reqs, i);
    }
    assert!(!ops.is_empty());
    let r = INTEREST_READABLE as i32;

    let mut pass = ops.begin_event(r);
    assert!(ops.is_empty());
    // The multishot poll reports through a new instance and keeps waiting.
    assert_eq!(pass.step(&mut ops, &mut reqs, &mut ready), PassStep::Continue);
    assert_eq!(reqs.len(), 4);
    assert_eq!(reqs[3].status(), r);
    assert_eq!(ready.len(), 1);
    // The receive moves data; some is left, so it keeps waiting.
    assert_eq!(pass.step(&mut ops, &mut reqs, &mut ready), PassStep::Transfer(1));
    assert!(pass.finish_transfer(&mut ops, &mut reqs, &ready, 6, pass.events()));
    assert_eq!(done_of(&reqs[1]), 6);
    // The send does not watch readability.
    assert_eq!(pass.step(&mut ops, &mut reqs, &mut ready), PassStep::Continue);
    assert_eq!(pass.step(&mut ops, &mut reqs, &mut ready), PassStep::Finished);
    assert_eq!(ready.len(), 1);

    let mut pass = ops.begin_event(r);
    assert_eq!(pass.step(&mut ops, &mut reqs, &mut ready), PassStep::Continue);
    assert_eq!(pass.step(&mut ops, &mut reqs, &mut ready), PassStep::Transfer(1));
    assert!(!pass.finish_transfer(&mut ops, &mut reqs, &ready, 4, pass.events()));
    assert_eq!(reqs[1].status(), 10);
    assert_eq!(pass.step(&mut ops, &mut reqs, &mut ready), PassStep::Continue);
    assert_eq!(pass.step(&mut ops, &mut reqs, &mut ready), PassStep::Finished);
    // Instances first, then the completed receive.
    assert_eq!(ready.pop_front(&mut reqs), Some(3));
    assert_eq!(ready.pop_front(&mut reqs), Some(4));
    assert_eq!(ready.pop_front(&mut reqs), Some(1));
    assert_eq!(ready.pop_front(&mut reqs), None);

    // What keeps waiting is the poll and the send, in order.
    let mut pass = ops.begin_event(0);
    assert_eq!(pass.step(&mut ops, &mut reqs, &mut ready), PassStep::Continue);
    assert_eq!(pass.step(&mut ops, &mut reqs, &mut ready), PassStep::Continue);
    assert_eq!(pass.step(&mut ops, &mut reqs, &mut ready), PassStep::Finished);
    assert!(!ops.is_empty());
}
