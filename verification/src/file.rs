//! File reads and writes run on worker threads: which transfer a request
//! asks for, the status it completes with, and how that status is written.
use crate::error::{spec_errno, IoError};
use crate::request::{
    Request, RequestData, RequestModel, OP_FILE_READ, OP_FILE_WRITE, PENDING,
};
use vstd::prelude::*;

verus! {

/// The transfer a file request asks for.
#[derive(Debug, Clone, Copy, PartialEq, Eq, Structural)]
pub enum FileOp {
    /// Read exactly the requested length at the offset.
    Read,
    /// Write all the requested bytes at the offset.
    Write,
}

/// The transfer to run for the file request `req`, `None` when it was
/// already completed (canceled or timed out) and nothing is to be done.
pub fn file_io_op(req: &Request) -> (op: Option<FileOp>)
    requires
        req@.concurrent_status == PENDING ==> (req@.opcode_raw() == OP_FILE_READ
            || req@.opcode_raw() == OP_FILE_WRITE),
    ensures
        op == if req@.concurrent_status != PENDING {
            None
        } else if req@.opcode_raw() == OP_FILE_READ {
            Some(FileOp::Read)
        } else {
            Some(FileOp::Write)
        },
{
    if req.concurrent_status() != PENDING {
        return None;
    }
    if req.opcode_raw() == OP_FILE_READ {
        Some(FileOp::Read)
    } else {
        Some(FileOp::Write)
    }
}

/// The status of a file transfer of `todo` bytes that ended with `result`:
/// the length when it succeeded, minus the `errno` otherwise.
pub fn file_io_status(todo: u32, result: Result<(), IoError>) -> (status: i32)
    ensures
        status == match result {
            Ok(()) => todo as i32,
            Err(e) => 0i32.wrapping_sub(spec_errno(e)),
        },
{
    match result {
        Ok(()) => todo as i32,
        Err(e) => 0i32.wrapping_sub(e.errno()),
    }
}

/// The length a file request asks to transfer.
pub fn file_io_len(req: &Request) -> (todo: u32)
    requires
        req@.op is FileIO,
    ensures
        todo == req@.op->FileIO_0.todo,
{
    match req.op() {
        RequestData::FileIO(f) => f.todo,
        _ => 0,
    }
}

/// Completes the file request `req` with `status`, unless it was already
/// completed; tells whether the status was written.
pub fn file_io_complete(req: &mut Request, status: i32) -> (set: bool)
    requires
        status != PENDING,
    ensures
        set == (old(req)@.concurrent_status == PENDING),
        final(req)@ == (RequestModel {
            concurrent_status: if set { status } else { old(req)@.concurrent_status },
            ..old(req)@
        }),
{
    req.complete_concurrent_status(status)
}

} // verus!
