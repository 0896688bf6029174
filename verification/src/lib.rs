use vstd::prelude::*;

pub mod capi;
pub mod details;
pub mod driver;
pub mod error;
pub mod fd_map;
pub mod file;
mod fx;
pub mod io_steps;
pub mod links;
pub mod pending_ops;
mod num_ext;
pub mod ready_fifo;
pub mod ready_list;
pub mod request;
pub mod request_list;
pub mod request_queue;
pub mod ring;
pub mod selector;
pub mod socket;
pub mod stat;
pub mod sub;
pub mod sub_links;
pub mod sub_list;
pub mod sys;
pub mod thread_pool;
pub mod time;
pub mod ucontext;

verus! {

/// Adds two integers; the sum must fit in a `u64`.
pub fn add(left: u64, right: u64) -> (sum: u64)
    requires
        left + right <= u64::MAX,
    ensures
        sum == left + right,
{
    left + right
}

} // verus!
