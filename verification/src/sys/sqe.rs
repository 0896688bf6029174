//! Submission queue entries of an io_uring: the fields a submission sets,
//! and what preparing a read writes into them.
use crate::error::IoError;
use vstd::prelude::*;

verus! {

/// The no-op operation.
pub const IORING_OP_NOP: u8 = 0;
/// The read operation.
pub const IORING_OP_READ: u8 = 22;
/// The bit number of the flag that links an entry to the next one.
pub const IOSQE_IO_LINK_BIT: u8 = 2;

/// The fields of a submission queue entry that submissions set.
#[derive(Debug, Clone, Copy, PartialEq, Eq, Structural)]
pub struct IoUringSqe {
    pub opcode: u8,
    pub flags: u8,
    pub ioprio: u16,
    pub fd: i32,
    pub off: u64,
    pub addr: u64,
    pub len: u32,
    pub rw_flags: u32,
    pub user_data: u64,
    pub buf_index: u16,
    pub personality: u16,
    pub file_index: u32,
    pub addr3: u64,
    pub pad2: u64,
}

/// `sqe` with the fields that every submission starts from cleared; the
/// operation and its operands stay.
pub open spec fn cleared(sqe: IoUringSqe, flags: u8) -> IoUringSqe {
    IoUringSqe {
        flags,
        ioprio: 0,
        rw_flags: 0,
        buf_index: 0,
        personality: 0,
        file_index: 0,
        addr3: 0,
        pad2: 0,
        ..sqe
    }
}

/// `sqe` set up for the operation `op` on `fd`, at `offset`, with the
/// buffer at `addr` of `len` bytes.
pub open spec fn prepared_rw(sqe: IoUringSqe, op: u8, fd: i32, addr: u64, len: u32, offset: u64) -> IoUringSqe {
    IoUringSqe { opcode: op, fd, off: offset, addr, len, ..sqe }
}

/// A submission being filled in.
pub struct Submission {
    sqe: IoUringSqe,
}

impl View for Submission {
    type V = IoUringSqe;

    closed spec fn view(&self) -> IoUringSqe {
        self.sqe
    }
}

impl Submission {
    /// A submission in the entry `sqe`, with its common fields cleared.
    pub fn new(sqe: IoUringSqe) -> (s: Self)
        ensures
            s@ == cleared(sqe, 0),
    {
        Submission {
            sqe: IoUringSqe {
                flags: 0,
                ioprio: 0,
                rw_flags: 0,
                buf_index: 0,
                personality: 0,
                file_index: 0,
                addr3: 0,
                pad2: 0,
                ..sqe
            },
        }
    }

    /// Sets up the operation `op` on `fd` at `offset`, with the buffer at
    /// `addr` of `len` bytes.
    pub fn prep_rw(&mut self, op: u8, fd: i32, addr: u64, len: u32, offset: u64)
        ensures
            final(self)@ == prepared_rw(old(self)@, op, fd, addr, len, offset),
    {
        self.sqe = IoUringSqe { opcode: op, fd, off: offset, addr, len, ..self.sqe };
    }

    /// Sets up a read of `nbytes` at `offset` of `fd` into the buffer at
    /// `buf`, whose completion carries `token`.
    pub fn prep_read(&mut self, fd: i32, buf: u64, nbytes: u32, offset: u64, token: usize)
        ensures
            final(self)@ == (IoUringSqe {
                user_data: token as u64,
                ..prepared_rw(old(self)@, IORING_OP_READ, fd, buf, nbytes, offset)
            }),
    {
        self.prep_rw(IORING_OP_READ, fd, buf, nbytes, offset);
        self.set_token(token);
    }

    /// The token the completion carries.
    pub fn token(&self) -> (t: usize)
        ensures
            t == self@.user_data as usize,
    {
        self.sqe.user_data as usize
    }

    /// Sets the token the completion carries.
    pub fn set_token(&mut self, token: usize)
        ensures
            final(self)@ == (IoUringSqe { user_data: token as u64, ..old(self)@ }),
    {
        self.sqe.user_data = token as u64;
    }

    /// The entry's flags.
    pub fn flags(&self) -> (f: u8)
        ensures
            f == self@.flags,
    {
        self.sqe.flags
    }

    /// Sets the entry's flags.
    pub fn set_flags(&mut self, flags: u8)
        ensures
            final(self)@ == (IoUringSqe { flags, ..old(self)@ }),
    {
        self.sqe.flags = flags;
    }

    /// The entry as filled in.
    pub fn entry(&self) -> (e: IoUringSqe)
        ensures
            e == self@,
    {
        self.sqe
    }
}

/// A submission queue entry prepared in place.
pub struct Sqe {
    sqe: IoUringSqe,
}

impl View for Sqe {
    type V = IoUringSqe;

    closed spec fn view(&self) -> IoUringSqe {
        self.sqe
    }
}

impl Sqe {
    /// The entry `sqe` with its common fields cleared; when `linked`, its
    /// flags hold the link flag's bit number.
    pub fn new(sqe: IoUringSqe, linked: bool) -> (s: Self)
        ensures
            s@ == cleared(
                sqe,
                if linked {
                    IOSQE_IO_LINK_BIT
                } else {
                    0
                },
            ),
    {
        let flags: u8 = if linked {
            IOSQE_IO_LINK_BIT
        } else {
            0
        };
        Sqe {
            sqe: IoUringSqe {
                flags,
                ioprio: 0,
                rw_flags: 0,
                buf_index: 0,
                personality: 0,
                file_index: 0,
                addr3: 0,
                pad2: 0,
                ..sqe
            },
        }
    }

    /// The entry turned into a cleared no-op, ready to be prepared.
    pub fn initialize(self) -> (e: IoUringSqe)
        ensures
            e == (IoUringSqe { opcode: IORING_OP_NOP, ..cleared(self@, 0) }),
    {
        IoUringSqe {
            opcode: IORING_OP_NOP,
            flags: 0,
            ioprio: 0,
            rw_flags: 0,
            buf_index: 0,
            personality: 0,
            file_index: 0,
            addr3: 0,
            pad2: 0,
            ..self.sqe
        }
    }

    /// Sets up the operation `op` on `fd` at `offset`, with the buffer at
    /// `addr` of `len` bytes; only a no-op entry can be prepared.
    pub fn prep_rw(&mut self, op: u8, fd: i32, addr: u64, len: u32, offset: u64)
        requires
            old(self)@.opcode == IORING_OP_NOP,
        ensures
            final(self)@ == prepared_rw(old(self)@, op, fd, addr, len, offset),
    {
        self.sqe = IoUringSqe { opcode: op, fd, off: offset, addr, len, ..self.sqe };
    }

    /// Sets up a read of `nbytes` at `offset` of `fd` into the buffer at
    /// `buf`, whose completion carries `token`.
    pub fn prep_read(&mut self, fd: i32, buf: u64, nbytes: u32, offset: u64, token: usize)
        requires
            old(self)@.opcode == IORING_OP_NOP,
        ensures
            final(self)@ == (IoUringSqe {
                user_data: token as u64,
                ..prepared_rw(old(self)@, IORING_OP_READ, fd, buf, nbytes, offset)
            }),
    {
        self.prep_rw(IORING_OP_READ, fd, buf, nbytes, offset);
        self.set_token(token);
    }

    /// The token the completion carries.
    pub fn token(&self) -> (t: usize)
        ensures
            t == self@.user_data as usize,
    {
        self.sqe.user_data as usize
    }

    /// Sets the token the completion carries.
    pub fn set_token(&mut self, token: usize)
        ensures
            final(self)@ == (IoUringSqe { user_data: token as u64, ..old(self)@ }),
    {
        self.sqe.user_data = token as u64;
    }
}

/// What committing the queued entries gives: with nothing new, `0`; else
/// the number of entries the kernel took (`status`), or, when the submit
/// call failed with the negative `status`, that error (the tail is then
/// rolled back).
pub fn commit_outcome(anything_new: bool, status: i32) -> (r: Result<u32, IoError>)
    requires
        status != i32::MIN,
    ensures
        r == if !anything_new {
            Ok::<u32, IoError>(0)
        } else if status >= 0 {
            Ok::<u32, IoError>(status as u32)
        } else {
            Err::<u32, IoError>(IoError::Os(-status as i32))
        },
{
    if !anything_new {
        Ok(0)
    } else if status >= 0 {
        Ok(status as u32)
    } else {
        Err(IoError::Os(-status))
    }
}

/// The token set on an entry is the one read back.
pub proof fn law_token_round_trip(token: usize)
    ensures
        (token as u64) as usize == token,
{
    assert((token as u64) as usize == token) by (bit_vector);
}

} // verus!
