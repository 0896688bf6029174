//! The decisions around a wait on an I/O completion port: the timeout it
//! is given, the room it reports into, and what comes back.
use crate::error::IoError;
use vstd::prelude::*;

verus! {

/// The completion key that only wakes a waiter.
pub const WAKE_TOKEN: usize = 0;

/// The error that a wait reports when its timeout expired.
pub const WAIT_TIMEOUT: u32 = 258;

/// The timeout given to the wait: a negative one waits forever.
pub fn iocp_timeout(timeout_ms: i32) -> (t: u32)
    ensures
        t == if timeout_ms < 0 {
            0xFFFF_FFFFu32
        } else {
            timeout_ms as u32
        },
{
    if timeout_ms < 0 {
        0xFFFF_FFFFu32
    } else {
        timeout_ms as u32
    }
}

/// Calls `num::ToPrimitive::to_i32` on a `usize`; claims its documented
/// result: the value when it fits in an `i32`, `None` otherwise.
#[verifier::external_body]
fn usize_to_i32(value: usize) -> (r: Option<i32>)
    ensures
        r == if value <= i32::MAX {
            Some(value as i32)
        } else {
            None::<i32>
        },
{
    num::ToPrimitive::to_i32(&value)
}

/// The number of entries a wait may report into a buffer of `capacity`
/// entries: the capacity, at most `i32::MAX`.
pub fn entries_capacity(capacity: usize) -> (n: i32)
    ensures
        n == if capacity <= i32::MAX {
            capacity as i32
        } else {
            i32::MAX
        },
{
    match usize_to_i32(capacity) {
        Some(n) => n,
        None => i32::MAX,
    }
}

/// The entries of a wait that carry a completion key other than the wake
/// token, in order.
pub open spec fn user_entries<T>(entries: Seq<(usize, T)>) -> Seq<(usize, T)> {
    entries.filter(|e: (usize, T)| e.0 != WAKE_TOKEN)
}

/// Drops the entries that only woke the waiter, keeping the others in
/// order.
pub fn remove_wake_tokens<T: Copy>(entries: &Vec<(usize, T)>) -> (kept: Vec<(usize, T)>)
    ensures
        kept@ == user_entries(entries@),
{
    let mut kept: Vec<(usize, T)> = Vec::new();
    let mut i: usize = 0;
    while i < entries.len()
        invariant
            0 <= i <= entries@.len(),
            kept@ == user_entries(entries@.subrange(0, i as int)),
        decreases entries@.len() - i,
    {
        let e = entries[i];
        proof {
            let s = entries@.subrange(0, i as int + 1);
            assert(s.drop_last() =~= entries@.subrange(0, i as int));
            assert(s.last() == e);
            broadcast use vstd::seq_lib::group_filter_ensures;
            reveal(Seq::filter);
        }
        if e.0 != WAKE_TOKEN {
            kept.push(e);
        }
        i = i + 1;
    }
    proof {
        assert(entries@.subrange(0, entries@.len() as int) =~= entries@);
    }
    kept
}

/// What a wait gives back: on success the number of user entries; when it
/// failed, `0` if its timeout expired, else the system error `err`.
pub fn wait_outcome(succeeded: bool, user_entries: usize, err: u32) -> (r: Result<i32, IoError>)
    requires
        user_entries <= i32::MAX,
    ensures
        r == if succeeded {
            Ok::<i32, IoError>(user_entries as i32)
        } else if err == WAIT_TIMEOUT {
            Ok::<i32, IoError>(0)
        } else {
            Err::<i32, IoError>(IoError::Os(err as i32))
        },
{
    if succeeded {
        Ok(user_entries as i32)
    } else if err == WAIT_TIMEOUT {
        Ok(0)
    } else {
        Err(IoError::Os(err as i32))
    }
}

} // verus!
