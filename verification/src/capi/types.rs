//! Plain data exchanged with C callers.
#![allow(non_camel_case_types)]
#![allow(non_snake_case)]

use vstd::prelude::*;

verus! {

/// A thread-local completion port
#[derive(Debug, Clone, Copy)]
pub struct xcp_s {
    pub prv__thread_id: usize,
    pub prv__id: u32,
    pub prv__refcount: u32,
    pub prv__now: i64,
}

/// An asynchronous operation as seen from C; links are arena positions.
#[derive(Debug, Clone, Copy)]
pub struct xaio_s {
    pub prv__cp: Option<usize>,
    pub prv__status: i32,
    pub prv__flags_and_op_code: u32,
    pub prv__next: usize,
}

/// A completion event
#[derive(Debug, Clone, Copy)]
pub struct xevent_s {
    pub status: i32,
    pub flags: u32,
    pub token: u64,
}

/// The two ends of a FIFO of requests, as arena positions.
#[derive(Debug, Clone, Copy)]
pub struct xreq_fifo_s {
    pub front: Option<usize>,
    pub back: Option<usize>,
}

} // verus!
