use xaio::capi::driver::{xdriver_new_outcome, xdriver_params_s};
use xaio::driver::{
    driver_backend, epoll_driver_config, iocp_driver_config, ring_timer_capacity,
    windows_driver_config, DriverBackend, DriverConfig, DriverKind, DriverNone,
    DRIVER_FLAG_ATTACH_HANDLE, DRIVER_FLAG_CLOSE_ON_EXEC,
};
use xaio::error::IoError;
use xaio::fd_map::{Entry, FdMap};
use xaio::file::{file_io_complete, file_io_op, file_io_status, FileOp};
use xaio::io_steps::{event_poll_step, event_wait_step, read_some_step, socket_transfer_status, transfer_all_step, IoStep};
use xaio::ready_list::ReadyList;
use xaio::ring::RingInner;
use xaio::socket::{socketpair_args, socketpair_outcome, AF_INET, IPPROTO_TCP, SOCK_STREAM};
use xaio::request::{FileIORequest, OpCode, Request, RequestData, PENDING};
use xaio::selector::{
    events_to_interests, interests_to_events, INTEREST_ERROR, INTEREST_HANG_UP,
    INTEREST_PRIORITY, INTEREST_READABLE, INTEREST_WRITABLE, POLLERR, POLLHUP, POLLIN, POLLOUT,
    POLLPRI,
};
use xaio::sys::epoll::{epoll_registration_events, pipe2_flags, with_flag, EPOLLET, EPOLLEXCLUSIVE};
use xaio::sys::iocp::{entries_capacity, iocp_timeout, remove_wake_tokens, wait_outcome};
use xaio::thread_pool::{job_action, pool_size, JobAction, JobQueue};
use xaio::time::{saturating_duration_to_ms, saturating_duration_to_timespec, saturating_opt_duration_to_ms, TIME_T_MAX};
use xaio::details::timer_heap::TimerHeap;
use xaio::ucontext::context::UContext;
use xaio::ucontext::stack::{stack_bounds, stack_mapping, Stack, StackPool, DEFAULT_TOTAL_SIZE};

#[test]
fn transfer_all_continues_until_done() {
    assert_eq!(transfer_all_step(0, 8, Ok(3), true), (3, IoStep::Again));
    assert_eq!(transfer_all_step(3, 8, Ok(5), true), (8, IoStep::Done(Ok(8))));
    assert_eq!(transfer_all_step(3, 8, Err(IoError::Interrupted), false), (3, IoStep::Again));
    assert_eq!(transfer_all_step(3, 8, Err(IoError::WouldBlock), true), (3, IoStep::Poll));
    assert_eq!(
        transfer_all_step(3, 8, Err(IoError::WouldBlock), false),
        (3, IoStep::Done(Err(IoError::WouldBlock)))
    );
    assert_eq!(
        transfer_all_step(3, 8, Err(IoError::Os(9)), true),
        (3, IoStep::Done(Err(IoError::Os(9))))
    );
}

#[test]
fn read_some_stops_on_end_of_file_or_would_block_after_data() {
    assert_eq!(read_some_step(2, 8, Ok(0), true), (2, IoStep::Done(Ok(2))));
    assert_eq!(read_some_step(0, 8, Ok(0), true), (0, IoStep::Again));
    assert_eq!(read_some_step(2, 8, Err(IoError::WouldBlock), true), (2, IoStep::Done(Ok(2))));
    assert_eq!(read_some_step(0, 8, Err(IoError::WouldBlock), true), (0, IoStep::Poll));
    assert_eq!(
        read_some_step(0, 8, Err(IoError::WouldBlock), false),
        (0, IoStep::Done(Err(IoError::WouldBlock)))
    );
    assert_eq!(read_some_step(0, 8, Ok(8), false), (8, IoStep::Done(Ok(8))));
}

#[test]
fn event_wait_polls_on_would_block() {
    assert_eq!(event_wait_step(Ok(())), IoStep::Done(Ok(0)));
    assert_eq!(event_wait_step(Err(IoError::WouldBlock)), IoStep::Poll);
    assert_eq!(event_wait_step(Err(IoError::Other)), IoStep::Done(Err(IoError::Other)));
}

#[test]
fn socket_transfer_status_values() {
    let r = INTEREST_READABLE;
    assert_eq!(socket_transfer_status(Ok(12), r, 5), (Some(12), 5));
    assert_eq!(socket_transfer_status(Err(IoError::WouldBlock), r, 5), (Some(0), 4));
    assert_eq!(socket_transfer_status(Err(IoError::Interrupted), r, 5), (None, 5));
    assert_eq!(socket_transfer_status(Err(IoError::InvalidInput), r, 5), (Some(-22), 5));
    assert_eq!(socket_transfer_status(Err(IoError::Os(104)), r, 5), (Some(-104), 5));
}

#[test]
fn errno_of_each_error() {
    assert_eq!(IoError::NotFound.errno(), 2);
    assert_eq!(IoError::AlreadyExists.errno(), 17);
    assert_eq!(IoError::OutOfMemory.errno(), 12);
    assert_eq!(IoError::Unsupported.errno(), 38);
    assert_eq!(IoError::ResourceBusy.errno(), 16);
    assert_eq!(IoError::TimedOut.errno(), 110);
    assert_eq!(IoError::Os(77).errno(), 77);
}

#[test]
fn file_requests() {
    let op = RequestData::FileIO(FileIORequest { fd: 3, todo: 4096, offset: 0 });
    let mut req = Request::prepared(OpCode::FILE_READ, 0, op);
    assert_eq!(file_io_op(&req), Some(FileOp::Read));
    let write = Request::prepared(OpCode::FILE_WRITE, 0, op);
    assert_eq!(file_io_op(&write), Some(FileOp::Write));
    assert_eq!(file_io_status(4096, Ok(())), 4096);
    assert_eq!(file_io_status(4096, Err(IoError::Other)), -5);
    assert!(file_io_complete(&mut req, 4096));
    assert_eq!(req.concurrent_status(), 4096);
    // A completed request is not run again and keeps its first status.
    assert_eq!(file_io_op(&req), None);
    assert!(!file_io_complete(&mut req, -125));
    assert_eq!(req.concurrent_status(), 4096);
    assert_eq!(req.status(), PENDING);
}

#[test]
fn thread_pool_sizes_and_jobs() {
    assert_eq!(pool_size(1), 3);
    assert_eq!(pool_size(8), 17);
    assert_eq!(pool_size(511), 1023);
    assert_eq!(pool_size(512), 1024);
    assert_eq!(pool_size(100000), 1024);

    let noop = Request::prepared(OpCode::NOOP, 0, RequestData::Empty);
    assert_eq!(job_action(&noop), JobAction::Complete(0));
    let work = Request::prepared(OpCode::IO_WORK, 0, RequestData::Empty);
    assert_eq!(job_action(&work), JobAction::RunWork);
    let recv = Request::prepared(OpCode::SOCKET_RECV, 0, RequestData::Empty);
    assert_eq!(job_action(&recv), JobAction::Complete(38));
    let done = Request::default();
    assert_eq!(job_action(&done), JobAction::Complete(0));
}

#[test]
fn job_queue_starts_empty() {
    let mut reqs = vec![Request::default(); 1];
    let mut q = JobQueue::new();
    assert!(q.is_empty());
    assert!(q.next_job(&mut reqs).is_none());
    // Tying a request to a completion queue sets the concurrent flag, and
    // `is_concurrent` reports a tied request only while that flag is clear.
    reqs[0].set_concurrent(7);
    assert!(!reqs[0].is_concurrent());
}

#[test]
fn iocp_decisions() {
    assert_eq!(iocp_timeout(-1), 0xFFFF_FFFF);
    assert_eq!(iocp_timeout(0), 0);
    assert_eq!(iocp_timeout(250), 250);
    assert_eq!(entries_capacity(256), 256);
    assert_eq!(entries_capacity(usize::MAX), i32::MAX);
    let entries = vec![(0usize, 'a'), (5usize, 'b'), (0usize, 'c'), (9usize, 'd')];
    assert_eq!(remove_wake_tokens(&entries), vec![(5usize, 'b'), (9usize, 'd')]);
    assert_eq!(wait_outcome(true, 2, 0), Ok(2));
    assert_eq!(wait_outcome(false, 0, 258), Ok(0));
    assert_eq!(wait_outcome(false, 0, 6), Err(IoError::Os(6)));
}

#[test]
fn time_conversions_saturate() {
    let t = saturating_duration_to_timespec(3, 500);
    assert_eq!((t.tv_sec, t.tv_nsec), (3, 500));
    let t = saturating_duration_to_timespec(u64::MAX, 1);
    assert_eq!((t.tv_sec, t.tv_nsec), (TIME_T_MAX, 999_999_999));
    assert_eq!(saturating_duration_to_ms(1, 1), 1001);
    assert_eq!(saturating_duration_to_ms(0, 999_999), 1);
    assert_eq!(saturating_duration_to_ms(0, 0), 0);
    assert_eq!(saturating_duration_to_ms(u64::MAX, 999_999_999), i32::MAX);
    assert_eq!(saturating_opt_duration_to_ms(None), -1);
    assert_eq!(saturating_opt_duration_to_ms(Some((2, 0))), 2000);
}

#[test]
fn selector_events() {
    assert_eq!(interests_to_events(INTEREST_READABLE | INTEREST_WRITABLE), POLLIN | POLLOUT);
    assert_eq!(interests_to_events(INTEREST_PRIORITY | INTEREST_ERROR), POLLPRI);
    assert_eq!(
        events_to_interests(POLLIN | POLLERR | POLLHUP),
        INTEREST_READABLE | INTEREST_ERROR | INTEREST_HANG_UP
    );
    // Round trip of the watched interests.
    let i = INTEREST_READABLE | INTEREST_PRIORITY | INTEREST_HANG_UP;
    assert_eq!(events_to_interests(interests_to_events(i)), INTEREST_READABLE | INTEREST_PRIORITY);
}

#[test]
fn epoll_flags() {
    assert_eq!(
        epoll_registration_events(INTEREST_READABLE | 0x4000_0000),
        INTEREST_READABLE | EPOLLET | EPOLLEXCLUSIVE
    );
    assert_eq!(with_flag(0x2, 0x800, true), 0x802);
    assert_eq!(with_flag(0x802, 0x800, false), 0x2);
    assert_eq!(pipe2_flags(true, true), 0x800 | 0x80000);
    assert_eq!(pipe2_flags(false, false), 0);
}

#[test]
fn windows_driver_keeps_thread_hint() {
    let mut c = DriverConfig::default();
    c.flags = DRIVER_FLAG_ATTACH_HANDLE;
    c.attach_handle = 0x1234;
    c.max_number_of_threads = 4;
    let d = windows_driver_config(&c).unwrap();
    assert_eq!(d.max_number_of_threads, 4);
    assert_eq!(d.max_number_of_fd_hint, 256);
    assert_eq!(d.attach_handle, 0x1234);
    assert_eq!(d.flags, DRIVER_FLAG_ATTACH_HANDLE);
}

#[test]
fn driver_configs_clamp_hints() {
    let mut c = DriverConfig::default();
    c.max_number_of_fd_hint = 0;
    c.flags = DRIVER_FLAG_CLOSE_ON_EXEC | 0x40;
    let e = epoll_driver_config(&c);
    assert_eq!(e.max_number_of_fd_hint, 1);
    assert_eq!(e.flags, DRIVER_FLAG_CLOSE_ON_EXEC);
    assert_eq!(e.attach_handle, usize::MAX);
    c.max_number_of_fd_hint = 2_000_000;
    let i = iocp_driver_config(&c);
    assert_eq!(i.max_number_of_fd_hint, 1_000_000);
    assert_eq!(i.max_number_of_threads, 0);
    c.max_number_of_threads = 100_000;
    assert_eq!(iocp_driver_config(&c).max_number_of_threads, 65536);
    c.max_number_of_threads = 0;
    c.flags = DRIVER_FLAG_ATTACH_HANDLE;
    c.attach_handle = usize::MAX;
    assert_eq!(windows_driver_config(&c).err(), Some(IoError::InvalidInput));
    c.attach_handle = 42;
    assert_eq!(windows_driver_config(&c).unwrap().attach_handle, 42);
    let d = DriverNone::new(&c, None).unwrap();
    assert_eq!(d.driver_name(), "None");
    assert_eq!(d.driver_config().max_number_of_fd_hint, 1_000_000);
    let d = DriverNone::new(&c, Some(DriverKind::KQueue.name())).unwrap();
    assert_eq!(d.driver_name(), "KQueue");
    assert_eq!(DriverKind::Null.name(), "None");
    assert_eq!(driver_backend(DriverKind::EPoll, true, false), DriverBackend::EPoll);
    assert_eq!(driver_backend(DriverKind::EPoll, false, true), DriverBackend::Unsupported);
    assert_eq!(driver_backend(DriverKind::IOCP, false, true), DriverBackend::IOCP);
    assert_eq!(driver_backend(DriverKind::URing, true, false), DriverBackend::Unsupported);
    c.submission_queue_depth = 8;
    assert_eq!(ring_timer_capacity(&c), 64);
    c.submission_queue_depth = 512;
    assert_eq!(ring_timer_capacity(&c), 512);
}

#[test]
fn fd_map_single_reader_and_writer() {
    let mut m = FdMap::new(16).unwrap();
    assert_eq!(m.update(4, Some(1), None), Ok(()));
    assert_eq!(m.update(4, Some(2), None), Err(IoError::ResourceBusy));
    // An update replaces both watchers.
    assert_eq!(m.update(4, None, Some(3)), Ok(()));
    assert_eq!(m.update(4, None, Some(5)), Err(IoError::ResourceBusy));
    assert_eq!(m.update(4, Some(6), None), Ok(()));
    // Clearing the watchers forgets the descriptor, so a new reader fits.
    assert_eq!(m.update(4, None, None), Ok(()));
    assert_eq!(m.update(4, Some(2), None), Ok(()));
    assert_eq!(m.update(9, None, None), Ok(()));
    let _ = Entry { reader: None, writer: None };
}

#[test]
fn stack_layout() {
    assert_eq!(stack_bounds(0x1000, 0x5000, 0x1000, true), (0x1000, 0x2000));
    assert_eq!(stack_bounds(0x1000, 0x5000, 0x1000, false), (0x5000, 0x1000));
    assert_eq!(stack_mapping(0x2000, 0x1000, true), 0x1000);
    assert_eq!(stack_mapping(0x1000, 0x1000, false), 0x1000);
    let s = Stack::with_size_for(100, 4096, 4096);
    assert_eq!(s.total_size(), 8192);
    let s = Stack::with_size_for(0, 4096, 4096);
    assert_eq!(s.total_size(), 8192);
    let s = Stack::with_size_for(4097, 4096, 4096);
    assert_eq!(s.total_size(), 12288);
    let mut s = Stack::with_size_for(4096, 4096, 4096);
    let mut pool = StackPool::new(8192);
    assert_eq!(pool.total_size(), 8192);
    assert_eq!(s.guard_range_for(4096), 0..0);
    assert!(!s.allocate(&mut pool, None));
    assert_eq!(s.bottom(), 0);
    assert!(s.allocate(&mut pool, Some(0x20000)));
    assert_eq!(s.bottom(), 0x20000);
    assert_eq!(s.guard_range_for(4096), 0x1F000..0x20000);
    assert_eq!(s.stack_guard_size(), 4096);
    assert_eq!(s.size(), 4096);
    assert_eq!(s.guard_range(), 0x1F000..0x20000);
    assert!(!s.is_registered());
    let root = Stack::root_stack();
    assert_eq!(root.total_size(), 0);
    assert_eq!(root.stack_guard_size(), 0);
    assert_eq!(root.size(), 0);
}

#[test]
fn socketpair_arguments() {
    assert_eq!(socketpair_args(AF_INET, SOCK_STREAM, None), Ok(()));
    assert_eq!(socketpair_args(AF_INET, SOCK_STREAM, Some(IPPROTO_TCP)), Ok(()));
    assert_eq!(socketpair_args(10, SOCK_STREAM, None), Err(IoError::InvalidInput));
    assert_eq!(socketpair_args(AF_INET, 2, None), Err(IoError::InvalidInput));
    assert_eq!(socketpair_args(AF_INET, SOCK_STREAM, Some(17)), Err(IoError::InvalidInput));
    assert_eq!(socketpair_outcome(true), Ok(()));
    assert_eq!(socketpair_outcome(false), Err(IoError::Other));
}

#[test]
fn ring_hands_back_concurrent_completions() {
    let config = DriverConfig::default();
    let mut ring = RingInner::new(&config, 5).unwrap();
    assert_eq!(ring.now(), 5);
    assert_eq!(ring.update_now(9), 9);
    assert_eq!(ring.now(), 9);
    assert_eq!(ring.wait_begin(100), 100);
    assert_eq!(ring.wait_begin(100), 0);
    let mut reqs = vec![Request::default(); 2];
    let mut ready = ReadyList::new();
    assert_eq!(ring.wait_end(&mut reqs, &mut ready), 0);
    // Nothing queued: a wait forever goes ahead.
    assert_eq!(ring.wait_begin(-1), -1);
    assert_eq!(ring.wait_begin(-1), 0);
}

#[test]
fn event_poll_ends_on_timeout() {
    assert_eq!(event_poll_step(Ok(0)), IoStep::Done(Err(IoError::TimedOut)));
    assert_eq!(event_poll_step(Ok(1)), IoStep::Again);
    assert_eq!(event_poll_step(Err(IoError::Interrupted)), IoStep::Done(Err(IoError::Interrupted)));
}

#[test]
fn timer_heap_duplicate_is_already_exists() {
    let mut th = TimerHeap::new(32).unwrap();
    assert!(th.push(5, 5).is_ok());
    assert_eq!(th.push(5, 99), Err(IoError::AlreadyExists));
    assert_eq!(th.len(), 1);
    assert_eq!(th.next_deadline(u64::MAX), 5);
}

#[test]
fn default_stack_round_trip() {
    let page = Stack::page_size();
    assert_eq!(UContext::<fn()>::default_size(), DEFAULT_TOTAL_SIZE - page);
    assert_eq!(Stack::with_size(UContext::<fn()>::default_size()).total_size(), DEFAULT_TOTAL_SIZE);
    assert_eq!(DEFAULT_TOTAL_SIZE, 65536 * std::mem::size_of::<usize>());
    let s = Stack::with_size(100);
    assert_eq!(s.stack_guard_size(), page);
    assert_eq!(s.size(), s.total_size() - page);
    assert_eq!(Stack::new().stack_guard_size(), page);
    for g in [1usize, 2, 4096, 16384, 65536] {
        let hint = UContext::<fn()>::default_size_for(g);
        assert_eq!(hint, DEFAULT_TOTAL_SIZE - g);
        assert_eq!(Stack::with_size_for(hint, g, g).total_size(), DEFAULT_TOTAL_SIZE);
    }
    assert_eq!(Stack::with_size_for(0, DEFAULT_TOTAL_SIZE, DEFAULT_TOTAL_SIZE).total_size(), 2 * DEFAULT_TOTAL_SIZE);
}

#[test]
fn linux_waker_target() {
    assert_eq!(xaio::driver::waker_target(true), xaio::driver::WakerTarget::Ring);
    assert_eq!(xaio::driver::waker_target(false), xaio::driver::WakerTarget::EPoll);
}

#[test]
fn xdriver_new_outcomes() {
    let defaults = xdriver_params_s::default();
    let mut given = defaults;
    given.submission_queue_depth = 8;
    assert_eq!(xdriver_new_outcome(true, Some(given), defaults, true), Err(-22));
    assert_eq!(xdriver_new_outcome(false, Some(given), defaults, false), Err(-12));
    assert_eq!(xdriver_new_outcome(false, Some(given), defaults, true), Ok(given));
    assert_eq!(xdriver_new_outcome(false, None, defaults, true), Ok(defaults));
    assert_eq!(defaults.submission_queue_depth, 64);
}
