//! Driver parameters as seen from C.
#![allow(non_camel_case_types)]

use crate::error::{EINVAL, ENOMEM};
use vstd::prelude::*;

verus! {

/// Tries to reuse the sharable driver handle in `xdriver_params_s::attach_handle`
pub const XDRIVER_FLAG_ATTACH_HANDLE: u32 = 0x1;
/// Close the driver handle on exec
pub const XDRIVER_FLAG_CLOSE_ON_EXEC: u32 = 0x2;

/// IO Driver parameters
#[derive(Debug, Clone, Copy, PartialEq, Eq, Structural)]
pub struct xdriver_params_s {
    /// submission queue depth
    pub submission_queue_depth: i32,
    /// completion queue depth
    pub completion_queue_depth: i32,
    /// kernel busy-polling loop timeout in milliseconds, a value of <= 0 deactivate kernel polling
    pub kernel_poll_timeout_ms: i32,
    /// Flags
    pub flags: u32,
    /// A sharable driver handle when (flags & XDRIVER_FLAG_ATTACH_HANDLE)
    pub attach_handle: usize,
    /// An hint on the maximal number of file descriptor
    pub max_number_of_fd_hint: i32,
    pub reserved_: i32,
}

impl Default for xdriver_params_s {
    fn default() -> (p: Self)
        ensures
            p == (xdriver_params_s {
                submission_queue_depth: 64,
                completion_queue_depth: 128,
                kernel_poll_timeout_ms: 1000,
                flags: XDRIVER_FLAG_CLOSE_ON_EXEC,
                attach_handle: usize::MAX,
                max_number_of_fd_hint: 256,
                reserved_: 0,
            }),
    {
        Self {
            submission_queue_depth: 64,
            completion_queue_depth: 128,
            kernel_poll_timeout_ms: 1000,
            flags: XDRIVER_FLAG_CLOSE_ON_EXEC,
            attach_handle: usize::MAX,
            max_number_of_fd_hint: 256,
            reserved_: 0,
        }
    }
}

/// What creating a driver from C gives: `-EINVAL` when there is nowhere to
/// store the driver (`pdriver_is_null`); else `-ENOMEM` when no memory was
/// had for it (`allocated` false); else the parameters the driver keeps:
/// the given ones, or the class's defaults when none are given.
pub fn xdriver_new_outcome(
    pdriver_is_null: bool,
    opt_params: Option<xdriver_params_s>,
    class_defaults: xdriver_params_s,
    allocated: bool,
) -> (r: Result<xdriver_params_s, i32>)
    ensures
        r == if pdriver_is_null {
            Err::<xdriver_params_s, i32>((-EINVAL) as i32)
        } else if !allocated {
            Err::<xdriver_params_s, i32>((-ENOMEM) as i32)
        } else {
            Ok::<xdriver_params_s, i32>(
                match opt_params {
                    Some(p) => p,
                    None => class_defaults,
                },
            )
        },
{
    if pdriver_is_null {
        return Err(-EINVAL);
    }
    if !allocated {
        return Err(-ENOMEM);
    }
    match opt_params {
        Some(p) => Ok(p),
        None => Ok(class_defaults),
    }
}

} // verus!
