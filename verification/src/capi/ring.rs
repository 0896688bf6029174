//! Ring configuration as seen from C.
#![allow(non_camel_case_types)]

use vstd::prelude::*;

verus! {

/// Submit from a single thread; the ring may be bound to it
pub const XCONFIG_FLAG_ATTACH_SINGLE_ISSUER: u32 = 0x1;
/// Clone or share resources with the given handle
pub const XCONFIG_FLAG_ATTACH_HANDLE: u32 = 0x2;
/// Close the handle on exec
pub const XCONFIG_FLAG_CLOSE_ON_EXEC: u32 = 0x4;
/// Use the most efficient polling mecanism available (for example io_uring will use epoll for polling)
pub const XCONFIG_FLAG_FAST_POLL: u32 = 0x8;

/// A completion ring.
#[derive(Debug)]
pub struct xring_s {}

/// IO Driver parameters
#[derive(Debug, Clone, Copy, PartialEq, Eq, Structural)]
pub struct xconfig_s {
    /// submission queue depth
    pub submission_queue_depth: u32,
    /// completion queue depth
    pub completion_queue_depth: u32,
    /// kernel busy-polling loop timeout in milliseconds, a value of 0 deactivate kernel polling
    pub kernel_poll_timeout_ms: u32,
    /// Flags
    pub flags: u32,
    /// A sharable driver handle when (flags & XCONFIG_FLAG_ATTACH_HANDLE)
    pub attach_handle: usize,
    /// An hint on the maximal number of file descriptor
    pub max_number_of_fd_hint: u32,
    /// An hint on the maximum number of io threads (Kernel or Userspace) or 0 for defaults
    pub max_number_of_threads: u32,
}

} // verus!
