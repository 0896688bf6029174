//! Asynchronous requests and the intrusive-list links they carry.
//!
//! Requests live in an arena (`Vec<Request>`); a request is named by its
//! position there, and the lists link requests by those positions.
use crate::socket::RawSocketFd;
use vstd::prelude::*;

verus! {

/// Status of a request that has not completed.
pub const PENDING: i32 = i32::MIN;

/// Status of a request whose outcome is unknown.
pub const UNKNOWN: i32 = i32::MIN + 1;

/// The request completes on another thread and returns through its queue.
pub const FLAG_CONCURRENT: u32 = 0x100;

/// The request memory belongs to the ring.
pub const FLAG_RING_OWNED: u32 = 0x200;

/// Operation codes; `NOOP` is the first and `INVALID` the last.
#[allow(non_camel_case_types)]
#[derive(Clone, Copy, Debug, PartialEq, Eq, Structural)]
pub enum OpCode {
    /// No operation
    NOOP,
    /// Io work
    IO_WORK,
    /// Socket poll
    SOCKET_POLL,
    /// Socket recv
    SOCKET_RECV,
    /// Socket send
    SOCKET_SEND,
    /// File read
    FILE_READ,
    /// File write
    FILE_WRITE,
    /// An invalid op-code
    INVALID,
}

pub const OP_NOOP: u8 = 0;
pub const OP_IO_WORK: u8 = 1;
pub const OP_SOCKET_POLL: u8 = 2;
pub const OP_SOCKET_RECV: u8 = 3;
pub const OP_SOCKET_SEND: u8 = 4;
pub const OP_FILE_READ: u8 = 5;
pub const OP_FILE_WRITE: u8 = 6;
pub const OP_INVALID: u8 = 7;

/// The opcode of a raw byte: the variant of that rank, or `INVALID` past
/// the last one.
pub open spec fn opcode_of(value: u8) -> OpCode {
    if value == 0 {
        OpCode::NOOP
    } else if value == 1 {
        OpCode::IO_WORK
    } else if value == 2 {
        OpCode::SOCKET_POLL
    } else if value == 3 {
        OpCode::SOCKET_RECV
    } else if value == 4 {
        OpCode::SOCKET_SEND
    } else if value == 5 {
        OpCode::FILE_READ
    } else if value == 6 {
        OpCode::FILE_WRITE
    } else {
        OpCode::INVALID
    }
}

/// The rank of an opcode.
pub open spec fn opcode_rank(op: OpCode) -> u8 {
    match op {
        OpCode::NOOP => 0,
        OpCode::IO_WORK => 1,
        OpCode::SOCKET_POLL => 2,
        OpCode::SOCKET_RECV => 3,
        OpCode::SOCKET_SEND => 4,
        OpCode::FILE_READ => 5,
        OpCode::FILE_WRITE => 6,
        OpCode::INVALID => 7,
    }
}

impl From<u8> for OpCode {
    fn from(value: u8) -> (r: OpCode) {
        if value == 0 {
            OpCode::NOOP
        } else if value == 1 {
            OpCode::IO_WORK
        } else if value == 2 {
            OpCode::SOCKET_POLL
        } else if value == 3 {
            OpCode::SOCKET_RECV
        } else if value == 4 {
            OpCode::SOCKET_SEND
        } else if value == 5 {
            OpCode::FILE_READ
        } else if value == 6 {
            OpCode::FILE_WRITE
        } else {
            OpCode::INVALID
        }
    }
}

impl vstd::std_specs::convert::FromSpecImpl<u8> for OpCode {
    open spec fn obeys_from_spec() -> bool {
        true
    }

    open spec fn from_spec(v: u8) -> OpCode {
        opcode_of(v)
    }
}

impl From<OpCode> for u8 {
    fn from(value: OpCode) -> (r: u8) {
        match value {
            OpCode::NOOP => 0,
            OpCode::IO_WORK => 1,
            OpCode::SOCKET_POLL => 2,
            OpCode::SOCKET_RECV => 3,
            OpCode::SOCKET_SEND => 4,
            OpCode::FILE_READ => 5,
            OpCode::FILE_WRITE => 6,
            OpCode::INVALID => 7,
        }
    }
}

impl vstd::std_specs::convert::FromSpecImpl<OpCode> for u8 {
    open spec fn obeys_from_spec() -> bool {
        true
    }

    open spec fn from_spec(v: OpCode) -> u8 {
        opcode_rank(v)
    }
}

/// Converting an opcode to its rank and back gives the opcode again.
pub proof fn lemma_opcode_round_trip(op: OpCode)
    ensures
        opcode_of(opcode_rank(op)) == op,
{
}

/// The parameters of a socket operation.
#[derive(Clone, Copy, Debug)]
pub struct SocketRequest {
    /// The socket
    pub socket: RawSocketFd,
    /// The interests
    pub interests: u16,
    /// The events
    pub events: u16,
    /// Amount of read or write to do
    pub todo: u32,
    /// Amount of read or write already done
    pub done: u32,
}

/// The parameters of a file operation.
#[derive(Clone, Copy, Debug)]
pub struct FileIORequest {
    /// The fd
    pub fd: i32,
    /// Amount of read or write to do
    pub todo: u32,
    /// File position
    pub offset: u64,
}

/// The operation-specific part of a request.
#[derive(Clone, Copy, Debug)]
pub enum RequestData {
    Empty,
    Socket(SocketRequest),
    FileIO(FileIORequest),
}

/// A handle on a submitted request.
#[derive(Clone, Copy, Debug)]
pub struct RequestHandle {
    pub token: usize,
}

/// An asynchronous request.
#[derive(Clone, Copy, Debug)]
pub struct Request {
    completion_queue: Option<usize>,
    status: i32,
    concurrent_status: i32,
    flags_and_op_code: u32,
    in_list: bool,
    list_next: Option<usize>,
    op: RequestData,
}

/// What a request holds, as plain values.
pub struct RequestModel {
    pub completion_queue: Option<usize>,
    pub status: i32,
    pub concurrent_status: i32,
    pub flags_and_op_code: u32,
    pub in_list: bool,
    pub next: Option<usize>,
    pub op: RequestData,
}

impl RequestModel {
    /// Everything but the list links is the same.
    pub open spec fn same_payload(self, other: RequestModel) -> bool {
        &&& self.completion_queue == other.completion_queue
        &&& self.status == other.status
        &&& self.concurrent_status == other.concurrent_status
        &&& self.flags_and_op_code == other.flags_and_op_code
        &&& self.op == other.op
    }

    /// The raw opcode byte.
    pub open spec fn opcode_raw(self) -> u8 {
        (self.flags_and_op_code & 0xff) as u8
    }

    /// Whether the concurrent flag is set.
    pub open spec fn has_concurrent_flag(self) -> bool {
        self.flags_and_op_code & FLAG_CONCURRENT != 0
    }
}

impl View for Request {
    type V = RequestModel;

    closed spec fn view(&self) -> RequestModel {
        RequestModel {
            completion_queue: self.completion_queue,
            status: self.status,
            concurrent_status: self.concurrent_status,
            flags_and_op_code: self.flags_and_op_code,
            in_list: self.in_list,
            next: self.list_next,
            op: self.op,
        }
    }
}

impl Default for Request {
    fn default() -> (r: Request)
        ensures
            r@.completion_queue == None::<usize>,
            r@.status == 0,
            r@.concurrent_status == 0,
            r@.flags_and_op_code == 0,
            !r@.in_list,
            r@.next == None::<usize>,
            r@.op == RequestData::Empty,
    {
        Request {
            completion_queue: None,
            status: 0,
            concurrent_status: 0,
            flags_and_op_code: 0,
            in_list: false,
            list_next: None,
            op: RequestData::Empty,
        }
    }
}

impl Request {
    /// A request prepared for `opcode`, pending, with the given operation
    /// data and flags.
    pub fn prepared(opcode: OpCode, flags: u32, op: RequestData) -> (r: Request)
        ensures
            r@.completion_queue == None::<usize>,
            r@.status == PENDING,
            r@.concurrent_status == PENDING,
            r@.flags_and_op_code == (flags & 0xffff_ff00) | opcode_rank(opcode) as u32,
            !r@.in_list,
            r@.next == None::<usize>,
            r@.op == op,
    {
        let raw: u8 = u8::from(opcode);
        Request {
            completion_queue: None,
            status: PENDING,
            concurrent_status: PENDING,
            flags_and_op_code: (flags & 0xffff_ff00) | raw as u32,
            in_list: false,
            list_next: None,
            op,
        }
    }

    /// Tells whether the request is linked in a list.
    pub fn in_a_list(&self) -> (b: bool)
        ensures
            b == self@.in_list,
    {
        self.in_list
    }

    /// Links an unlinked request in front of `next`.
    pub fn list_set_next(&mut self, next: Option<usize>)
        requires
            !old(self)@.in_list,
        ensures
            final(self)@.in_list,
            final(self)@.next == next,
            final(self)@.same_payload(old(self)@),
    {
        self.in_list = true;
        self.list_next = next;
    }

    /// Changes the successor of a linked request.
    pub fn list_update_next(&mut self, next: Option<usize>)
        requires
            old(self)@.in_list,
        ensures
            final(self)@.in_list,
            final(self)@.next == next,
            final(self)@.same_payload(old(self)@),
    {
        self.list_next = next;
    }

    /// The successor of the request.
    pub fn list_get_next(&self) -> (next: Option<usize>)
        ensures
            next == self@.next,
    {
        self.list_next
    }

    /// Unlinks the request and returns its former successor.
    pub fn list_pop_next(&mut self) -> (next: Option<usize>)
        ensures
            next == old(self)@.next,
            !final(self)@.in_list,
            final(self)@.next == None::<usize>,
            final(self)@.same_payload(old(self)@),
    {
        let next = self.list_next;
        self.in_list = false;
        self.list_next = None;
        next
    }

    /// An unlinked copy of the request that completed with `status`: one
    /// instance of a request that reports more than once.
    pub fn instance(&self, status: i32) -> (r: Request)
        ensures
            r@ == (RequestModel { status, in_list: false, next: None, ..self@ }),
    {
        Request { status, in_list: false, list_next: None, ..*self }
    }

    /// The operation of the request.
    pub fn opcode(&self) -> (op: OpCode)
        ensures
            op == opcode_of(self@.opcode_raw()),
    {
        OpCode::from(self.opcode_raw())
    }

    /// The raw opcode byte of the request.
    pub fn opcode_raw(&self) -> (raw: u8)
        ensures
            raw == self@.opcode_raw(),
    {
        (self.flags_and_op_code & 0xff) as u8
    }

    /// Tells whether the request is a socket poll, recv or send.
    pub fn is_a_socket_op(&self) -> (b: bool)
        ensures
            b == (OP_SOCKET_POLL <= self@.opcode_raw() <= OP_SOCKET_SEND),
    {
        let opcode: u8 = self.opcode_raw();
        OP_SOCKET_POLL <= opcode && opcode <= OP_SOCKET_SEND
    }

    /// The local completion status.
    pub fn status(&self) -> (s: i32)
        ensures
            s == self@.status,
    {
        self.status
    }

    /// The completion status written by another thread.
    pub fn concurrent_status(&self) -> (s: i32)
        ensures
            s == self@.concurrent_status,
    {
        self.concurrent_status
    }

    /// The operation data.
    pub fn op(&self) -> (op: RequestData)
        ensures
            op == self@.op,
    {
        self.op
    }

    /// Replaces the operation data.
    pub fn set_op(&mut self, op: RequestData)
        ensures
            final(self)@ == (RequestModel { op, ..old(self)@ }),
    {
        self.op = op;
    }

    /// The request is tied to a completion queue but the concurrent flag is
    /// clear.
    pub fn is_concurrent(&self) -> (b: bool)
        ensures
            b == (!self@.has_concurrent_flag() && self@.completion_queue is Some),
    {
        (self.flags_and_op_code & FLAG_CONCURRENT) == 0 && self.completion_queue.is_some()
    }

    /// Sets the concurrent flag and ties the request to `completion_queue`.
    pub fn set_concurrent(&mut self, completion_queue: usize)
        requires
            !(!old(self)@.has_concurrent_flag() && old(self)@.completion_queue is Some),
        ensures
            final(self)@ == (RequestModel {
                flags_and_op_code: old(self)@.flags_and_op_code | FLAG_CONCURRENT,
                completion_queue: Some(completion_queue),
                ..old(self)@
            }),
    {
        self.flags_and_op_code = self.flags_and_op_code | FLAG_CONCURRENT;
        self.completion_queue = Some(completion_queue);
    }

    /// Completes a pending local request with `status`; tells whether it
    /// was still pending.
    pub fn set_status_local(&mut self, status: i32) -> (set: bool)
        requires
            status != PENDING,
            !old(self)@.has_concurrent_flag(),
        ensures
            set == (old(self)@.status == PENDING),
            final(self)@ == (RequestModel {
                status: if set { status } else { old(self)@.status },
                ..old(self)@
            }),
    {
        if self.status == PENDING {
            self.status = status;
            true
        } else {
            false
        }
    }

    /// Writes the completion status of a concurrent request; tells whether it
    /// was still pending.
    pub fn set_status_concurrent(&mut self, status: i32) -> (set: bool)
        requires
            status != PENDING,
            old(self)@.has_concurrent_flag(),
        ensures
            set == (old(self)@.concurrent_status == PENDING),
            final(self)@ == (RequestModel {
                concurrent_status: if set { status } else { old(self)@.concurrent_status },
                ..old(self)@
            }),
    {
        if self.concurrent_status == PENDING {
            self.concurrent_status = status;
            true
        } else {
            false
        }
    }

    /// Writes the completion status of work done on another thread, unless
    /// the request was already completed (canceled or timed out); tells
    /// whether it was written.
    pub fn complete_concurrent_status(&mut self, status: i32) -> (set: bool)
        requires
            status != PENDING,
        ensures
            set == (old(self)@.concurrent_status == PENDING),
            final(self)@ == (RequestModel {
                concurrent_status: if set { status } else { old(self)@.concurrent_status },
                ..old(self)@
            }),
    {
        if self.concurrent_status == PENDING {
            self.concurrent_status = status;
            true
        } else {
            false
        }
    }

    /// Copies the concurrent status into the local status.
    pub fn take_concurrent_status(&mut self)
        ensures
            final(self)@ == (RequestModel { status: old(self)@.concurrent_status, ..old(self)@ }),
    {
        self.status = self.concurrent_status;
    }

    /// Cancels a pending request with the negative `status`; tells whether it
    /// was still pending.
    pub fn cancel(&mut self, status: i32) -> (set: bool)
        requires
            status < 0,
            !old(self)@.has_concurrent_flag(),
        ensures
            set == (old(self)@.status == PENDING),
            final(self)@ == (RequestModel {
                status: if set { status } else { old(self)@.status },
                ..old(self)@
            }),
    {
        if (self.flags_and_op_code & FLAG_CONCURRENT) == 0 {
            if self.status == PENDING {
                self.status = status;
                true
            } else {
                false
            }
        } else {
            self.set_status_local(status)
        }
    }
}

} // verus!
