use xaio::capi::ring::xconfig_s;
use xaio::driver::{linux_driver_backends, linux_driver_config};
use xaio::error::IoError;
use xaio::sys::iouring::{adopt_ring_depths, setup_params, KernelVersion, Probe, SubmissionQueue, OP_COUNT};
use xaio::sys::sqe::{commit_outcome, IoUringSqe, Sqe, Submission, IORING_OP_NOP, IORING_OP_READ};

#[test]
fn kernel_versions() {
    let v = KernelVersion::from_cstr(Some(b"6.8.0-45-generic"));
    assert_eq!((v.major, v.minor), (6, 8));
    let v = KernelVersion::from_cstr(Some(b"5.19"));
    assert_eq!((v.major, v.minor), (5, 19));
    let v = KernelVersion::from_cstr(Some(b"4"));
    assert_eq!((v.major, v.minor), (4, 0));
    let v = KernelVersion::from_cstr(Some(b"generic"));
    assert_eq!((v.major, v.minor), (-1, 0));
    let v = KernelVersion::from_cstr(None);
    assert_eq!((v.major, v.minor), (-1, 0));
    let v = KernelVersion { major: 5, minor: 19 };
    assert!(v.ge(5, 19));
    assert!(v.ge(5, 5));
    assert!(!v.ge(5, 20));
    assert!(!v.ge(6, 0));
    assert!(v.has_io_uring());
    assert!(v.has_setup_coop_taskrun());
    let old = KernelVersion { major: 5, minor: 4 };
    assert!(!old.has_io_uring());
}

#[test]
fn probes() {
    assert!(!Probe::unsuported().is_supported());
    let answers = vec![true; OP_COUNT];
    let p = Probe::from_answers(KernelVersion { major: 6, minor: 1 }, Some(&answers));
    assert!(p.is_supported());
    let p = Probe::from_answers(KernelVersion { major: 5, minor: 1 }, Some(&answers));
    assert!(!p.is_supported());
    let p = Probe::from_answers(KernelVersion { major: 6, minor: 1 }, None);
    assert!(!p.is_supported());
    let no_nop = vec![false; 3];
    let p = Probe::from_answers(KernelVersion { major: 6, minor: 1 }, Some(&no_nop));
    assert!(!p.is_supported());
}

#[test]
fn submission_queue_slots() {
    let mut sq = SubmissionQueue { tail: 6, ring_entries: 8, ring_mask: 7, setup_flags: 0 };
    assert_eq!(sq.next(0), Ok(6));
    assert_eq!(sq.next(0), Ok(7));
    assert_eq!(sq.next(0), Err(IoError::WouldBlock));
    assert_eq!(sq.tail, 8);
    assert_eq!(sq.next(1), Ok(0));
    let mut wide = SubmissionQueue { tail: 3, ring_entries: 8, ring_mask: 7, setup_flags: 0x400 };
    assert_eq!(wide.next(0), Ok(6));
}

fn blank() -> IoUringSqe {
    IoUringSqe {
        opcode: 9,
        flags: 7,
        ioprio: 3,
        fd: 0,
        off: 0,
        addr: 0,
        len: 0,
        rw_flags: 5,
        user_data: 0,
        buf_index: 1,
        personality: 2,
        file_index: 4,
        addr3: 8,
        pad2: 6,
    }
}

#[test]
fn submissions() {
    let mut s = Submission::new(blank());
    assert_eq!(s.flags(), 0);
    s.prep_read(4, 0x1000, 512, 64, 77);
    let e = s.entry();
    assert_eq!((e.opcode, e.fd, e.addr, e.len, e.off), (IORING_OP_READ, 4, 0x1000, 512, 64));
    assert_eq!((e.rw_flags, e.buf_index, e.personality, e.file_index, e.addr3), (0, 0, 0, 0, 0));
    assert_eq!(s.token(), 77);
    s.set_flags(1);
    assert_eq!(s.flags(), 1);

    let linked = Sqe::new(blank(), true);
    let e = linked.initialize();
    assert_eq!((e.opcode, e.flags), (IORING_OP_NOP, 0));
    let mut sqe = Sqe::new(e, false);
    sqe.prep_read(5, 0x2000, 16, 0, 9);
    assert_eq!(sqe.token(), 9);
    assert_eq!(commit_outcome(false, -5), Ok(0));
    assert_eq!(commit_outcome(true, 3), Ok(3));
    assert_eq!(commit_outcome(true, -16), Err(IoError::Os(16)));
}

#[test]
fn ring_setup() {
    let hints = xconfig_s {
        submission_queue_depth: 2,
        completion_queue_depth: 100000,
        kernel_poll_timeout_ms: 10,
        flags: 0x2 | 0x4 | 0x8 | 0x40,
        attach_handle: 5,
        max_number_of_fd_hint: 0,
        max_number_of_threads: 0,
    };
    let mut c = linux_driver_config(&hints);
    assert_eq!(c.submission_queue_depth, 16);
    assert_eq!(c.completion_queue_depth, 4096);
    assert_eq!(c.flags, 0x4 | 0x8);
    assert_eq!(linux_driver_backends(&c, true), (true, true));
    assert_eq!(linux_driver_backends(&c, false), (false, true));
    c.flags = 0x2 | 0x4;
    let p = setup_params(&mut c, &KernelVersion { major: 6, minor: 1 });
    assert_eq!(p.sq_entries, 16);
    assert_eq!(p.cq_entries, 4096);
    assert_eq!(p.flags, 0x8 | 0x40 | 0x10 | 0x20 | 0x100 | 0x80);
    assert_eq!(p.wq_fd, 5);
    assert_eq!(c.kernel_poll_timeout_ms, 0);
    c.flags = 0x2;
    let p = setup_params(&mut c, &KernelVersion { major: 5, minor: 5 });
    assert_eq!(p.flags, 0x8 | 0x40);
    assert_eq!(p.wq_fd, 0xffff_ffff);
    assert_eq!(c.flags, 0);
    let before = c;
    assert_eq!(adopt_ring_depths(&mut c, -12, 32, 64), Err(IoError::Os(12)));
    assert_eq!(c, before);
    assert_eq!(adopt_ring_depths(&mut c, 3, 32, 64), Ok(()));
    assert_eq!(c.submission_queue_depth, 32);
    assert_eq!(c.completion_queue_depth, 64);
    assert_eq!(c.flags, before.flags);
    assert_eq!(c.attach_handle, before.attach_handle);
}
