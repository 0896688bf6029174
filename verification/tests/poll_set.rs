use xaio::error::IoError;
use xaio::selector::{Event, INTEREST_READABLE, INTEREST_WRITABLE, POLLIN, POLLOUT};
use xaio::socket::RawSocketFd;
use xaio::sys::poll::{Inner, Poll, PollFD, PollFds};

#[test]
fn poll_fds_reuse_free_slots() {
    let mut p = PollFds::new(4).unwrap();
    assert_eq!(p.add_fd(RawSocketFd::new(10), POLLIN), Ok(0));
    assert_eq!(p.add_fd(RawSocketFd::new(11), POLLIN), Ok(1));
    assert_eq!(p.add_fd(RawSocketFd::new(12), POLLOUT), Ok(2));
    assert_eq!(p.add_fd(RawSocketFd::new(13), POLLOUT), Ok(3));
    assert_eq!(p.active_fds(), 4);
    // Freeing a middle slot leaves a free slot, reused by the next add.
    p.rem_fd(1);
    assert_eq!(p.active_fds(), 3);
    assert_eq!(p.len(), 4);
    assert!(p.get(1).is_disabled());
    assert_eq!(p.add_fd(RawSocketFd::new(14), POLLIN), Ok(1));
    assert_eq!(p.get(1), PollFD { fd: 14, events: POLLIN, revents: 0 });
    // Removing the last slot while every slot is in use drops it.
    p.rem_fd(3);
    assert_eq!(p.active_fds(), 3);
    assert_eq!(p.len(), 3);
    p.mod_fd(1, POLLOUT);
    assert_eq!(p.get(1).events, POLLOUT);
    // Removing the slot at the count left in use also drops the free
    // slots just below it.
    p.rem_fd(1);
    assert_eq!(p.len(), 3);
    assert_eq!(p.add_fd(RawSocketFd::new(15), POLLIN), Ok(1));
    p.rem_fd(1);
    assert_eq!(p.add_fd(RawSocketFd::new(16), POLLIN), Ok(1));
    assert_eq!(p.active_fds(), 3);
    let mut q = PollFds::new(4).unwrap();
    for fd in 10..14 {
        assert!(q.add_fd(RawSocketFd::new(fd), POLLIN).is_ok());
    }
    q.rem_fd(1);
    q.rem_fd(2);
    assert_eq!(q.active_fds(), 2);
    assert_eq!(q.len(), 2);
    assert_eq!(q.get(1).fd, 13);
}

#[test]
fn registrations_answer_errors() {
    let mut inner = Inner::new(8).unwrap();
    assert_eq!(inner.register(RawSocketFd::new(-1), 1, POLLIN), Err(IoError::InvalidInput));
    assert_eq!(inner.register(RawSocketFd::new(5), 0, POLLIN), Ok(()));
    assert_eq!(inner.register(RawSocketFd::new(6), 7, POLLIN), Ok(()));
    assert_eq!(inner.register(RawSocketFd::new(6), 8, POLLIN), Err(IoError::AlreadyExists));
    assert_eq!(inner.reregister(RawSocketFd::new(9), 8, POLLIN), Err(IoError::NotFound));
    assert_eq!(inner.reregister(RawSocketFd::new(-3), 8, POLLIN), Err(IoError::InvalidInput));
    assert_eq!(inner.reregister(RawSocketFd::new(6), 9, POLLOUT), Ok(()));
    assert_eq!(inner.unregister(RawSocketFd::new(9)), Err(IoError::NotFound));
    assert_eq!(inner.unregister(RawSocketFd::new(6)), Ok(()));
    assert_eq!(inner.unregister(RawSocketFd::new(6)), Err(IoError::NotFound));
}

#[test]
fn collect_reported_events() {
    let mut poll = Poll::new(8).unwrap();
    assert!(!poll.get_native_handle().is_valid());
    assert_eq!(poll.register(RawSocketFd::new(3), 0, INTEREST_READABLE), Ok(()));
    assert_eq!(poll.register(RawSocketFd::new(4), 44, INTEREST_READABLE), Ok(()));
    assert_eq!(poll.register(RawSocketFd::new(5), 55, INTEREST_WRITABLE), Ok(()));
    assert_eq!(poll.reregister(RawSocketFd::new(4), 40, INTEREST_WRITABLE), Ok(()));
    let inner = poll.inner_mut();
    inner_set_revents(inner, 1, POLLOUT);
    inner_set_revents(inner, 2, POLLOUT);
    let mut events = Vec::new();
    poll.inner_ref().collect_events(2, &mut events);
    assert_eq!(
        events,
        vec![
            Event { events: INTEREST_WRITABLE, token: 40 },
            Event { events: INTEREST_WRITABLE, token: 55 },
        ]
    );
    // The scan stops after the reported count.
    let mut events = Vec::new();
    poll.inner_ref().collect_events(1, &mut events);
    assert_eq!(events, vec![Event { events: INTEREST_WRITABLE, token: 40 }]);
    assert_eq!(poll.unregister(RawSocketFd::new(5)), Ok(()));
    assert_eq!(poll.unregister(RawSocketFd::new(5)), Err(IoError::NotFound));
}

fn inner_set_revents(inner: &mut Inner, index: usize, revents: i16) {
    inner.set_revents(index, revents);
}
