//! The flags handed to epoll and to the descriptor calls around it.
use crate::selector::INTEREST_ONESHOT;
use vstd::prelude::*;

verus! {

/// Edge-triggered notification.
pub const EPOLLET: u32 = 0x8000_0000;
/// Wake one waiter only.
pub const EPOLLEXCLUSIVE: u32 = 0x1000_0000;
/// Close the epoll descriptor across `exec`.
pub const EPOLL_CLOEXEC: i32 = 0x80000;
/// Non-blocking descriptor status flag.
pub const O_NONBLOCK: i32 = 0x800;
/// Close-on-exec flag for `pipe2`.
pub const O_CLOEXEC: i32 = 0x80000;
/// Close-on-exec descriptor flag.
pub const FD_CLOEXEC: i32 = 1;

/// The flags `epoll_create1` is given.
pub fn epoll_create_flags(close_on_exec: bool) -> (f: i32)
    ensures
        f == if close_on_exec {
            EPOLL_CLOEXEC
        } else {
            0
        },
{
    if close_on_exec {
        EPOLL_CLOEXEC
    } else {
        0
    }
}

/// The events a (re)registration asks epoll for: the interests,
/// edge-triggered and exclusive, without the one-shot flag, which epoll is
/// never given.
pub fn epoll_registration_events(interests: u32) -> (events: u32)
    ensures
        events == (interests | EPOLLET | EPOLLEXCLUSIVE) & !INTEREST_ONESHOT,
{
    (interests | EPOLLET | EPOLLEXCLUSIVE) & !INTEREST_ONESHOT
}

/// `tags` with `flag` set when `on`, cleared otherwise.
pub fn with_flag(tags: i32, flag: i32, on: bool) -> (r: i32)
    ensures
        r == if on {
            tags | flag
        } else {
            tags & !flag
        },
{
    if on {
        tags | flag
    } else {
        tags & !flag
    }
}

/// The flags `pipe2` is given.
pub fn pipe2_flags(non_blocking: bool, close_on_exec: bool) -> (f: i32)
    ensures
        f == (if non_blocking {
            O_NONBLOCK
        } else {
            0
        }) | (if close_on_exec {
            O_CLOEXEC
        } else {
            0
        }),
{
    let mut flags: i32 = 0;
    if non_blocking {
        flags = flags | O_NONBLOCK;
    }
    if close_on_exec {
        flags = flags | O_CLOEXEC;
    }
    proof {
        assert(0i32 | O_NONBLOCK == O_NONBLOCK) by (bit_vector);
        assert(0i32 | O_CLOEXEC == O_CLOEXEC) by (bit_vector);
        assert(0i32 | 0i32 == 0i32) by (bit_vector);
        assert(O_NONBLOCK | 0i32 == O_NONBLOCK) by (bit_vector);
    }
    flags
}

} // verus!
