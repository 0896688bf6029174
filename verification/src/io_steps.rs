//! The decisions of the read, write and wait loops: after each system call,
//! what to do next.
use crate::error::IoError;
use vstd::prelude::*;

verus! {

/// What a transfer loop does next.
#[derive(Debug, Clone, Copy, PartialEq, Eq)]
pub enum IoStep {
    /// Make the call again.
    Again,
    /// Wait for the descriptor to be ready, then make the call again.
    Poll,
    /// Stop with this result.
    Done(Result<usize, IoError>),
}

/// One step of a loop that transfers all of `todo` bytes: `done` were
/// already moved and the last call gave `result`. Returns the new count and
/// what to do next. Short transfers continue, interrupted calls are retried,
/// a would-block polls when `block_on_eagain` (else fails), any other error
/// stops the loop.
pub fn transfer_all_step(
    done: usize,
    todo: usize,
    result: Result<usize, IoError>,
    block_on_eagain: bool,
) -> (r: (usize, IoStep))
    requires
        done < todo,
        result matches Ok(n) ==> n <= todo - done,
    ensures
        match result {
            Ok(n) => r == (
                (done + n) as usize,
                if done + n < todo {
                    IoStep::Again
                } else {
                    IoStep::Done(Ok((done + n) as usize))
                },
            ),
            Err(IoError::WouldBlock) => r == (
                done,
                if block_on_eagain {
                    IoStep::Poll
                } else {
                    IoStep::Done(Err(IoError::WouldBlock))
                },
            ),
            Err(IoError::Interrupted) => r == (done, IoStep::Again),
            Err(e) => r == (done, IoStep::Done(Err(e))),
        },
{
    match result {
        Ok(n) => {
            let done = done + n;
            if done < todo {
                (done, IoStep::Again)
            } else {
                (done, IoStep::Done(Ok(done)))
            }
        },
        Err(IoError::WouldBlock) => {
            if block_on_eagain {
                (done, IoStep::Poll)
            } else {
                (done, IoStep::Done(Err(IoError::WouldBlock)))
            }
        },
        Err(IoError::Interrupted) => (done, IoStep::Again),
        Err(e) => (done, IoStep::Done(Err(e))),
    }
}

/// One step of a loop that reads what is available, up to `todo` bytes:
/// an end of file after some data, or a would-block after some data, stops
/// with what was read; a would-block before any data polls when
/// `block_on_eagain` (else fails).
pub fn read_some_step(
    done: usize,
    todo: usize,
    result: Result<usize, IoError>,
    block_on_eagain: bool,
) -> (r: (usize, IoStep))
    requires
        done < todo,
        result matches Ok(n) ==> n <= todo - done,
    ensures
        match result {
            Ok(n) => r == (
                (done + n) as usize,
                if n == 0 && done + n != 0 {
                    IoStep::Done(Ok((done + n) as usize))
                } else if done + n < todo {
                    IoStep::Again
                } else {
                    IoStep::Done(Ok((done + n) as usize))
                },
            ),
            Err(IoError::WouldBlock) => r == (
                done,
                if block_on_eagain && done == 0 {
                    IoStep::Poll
                } else if done != 0 {
                    IoStep::Done(Ok(done))
                } else {
                    IoStep::Done(Err(IoError::WouldBlock))
                },
            ),
            Err(IoError::Interrupted) => r == (done, IoStep::Again),
            Err(e) => r == (done, IoStep::Done(Err(e))),
        },
{
    match result {
        Ok(n) => {
            let done = done + n;
            if n == 0 && done != 0 {
                (done, IoStep::Done(Ok(done)))
            } else if done < todo {
                (done, IoStep::Again)
            } else {
                (done, IoStep::Done(Ok(done)))
            }
        },
        Err(IoError::WouldBlock) => {
            if block_on_eagain && done == 0 {
                (done, IoStep::Poll)
            } else if done != 0 {
                (done, IoStep::Done(Ok(done)))
            } else {
                (done, IoStep::Done(Err(IoError::WouldBlock)))
            }
        },
        Err(IoError::Interrupted) => (done, IoStep::Again),
        Err(e) => (done, IoStep::Done(Err(e))),
    }
}

/// What an event wait loop does after a non-blocking read of the event:
/// success ends the wait, a would-block polls, any other error ends it.
pub fn event_wait_step(read: Result<(), IoError>) -> (step: IoStep)
    ensures
        step == match read {
            Ok(()) => IoStep::Done(Ok(0)),
            Err(IoError::WouldBlock) => IoStep::Poll,
            Err(e) => IoStep::Done(Err(e)),
        },
{
    match read {
        Ok(()) => IoStep::Done(Ok(0)),
        Err(IoError::WouldBlock) => IoStep::Poll,
        Err(e) => IoStep::Done(Err(e)),
    }
}

/// What an event wait does after polling the event's descriptor for at most
/// its timeout: when the poll reports nothing, the timeout expired and the
/// wait ends with `TimedOut`; when it reports the descriptor ready, the
/// event is read again; an error ends the wait.
pub fn event_poll_step(polled: Result<usize, IoError>) -> (step: IoStep)
    ensures
        step == match polled {
            Ok(n) => if n == 0 {
                IoStep::Done(Err(IoError::TimedOut))
            } else {
                IoStep::Again
            },
            Err(e) => IoStep::Done(Err(e)),
        },
{
    match polled {
        Ok(n) => if n == 0 {
            IoStep::Done(Err(IoError::TimedOut))
        } else {
            IoStep::Again
        },
        Err(e) => IoStep::Done(Err(e)),
    }
}

/// The status of one non-blocking socket transfer and the events left, for
/// the transfer's `result`: the length moved; `0` on would-block, and then
/// `interest` is no longer ready; minus the `errno` on error; `None` when
/// the call was interrupted and must be made again.
pub fn socket_transfer_status(result: Result<usize, IoError>, interest: u32, events: i32) -> (r: (
    Option<i32>,
    i32,
))
    ensures
        r == match result {
            Ok(len) => (Some(len as i32), events),
            Err(IoError::WouldBlock) => (Some(0i32), events & !(interest as i32)),
            Err(IoError::Interrupted) => (None, events),
            Err(e) => (Some(0i32.wrapping_sub(crate::error::spec_errno(e))), events),
        },
{
    match result {
        Ok(len) => (Some(len as i32), events),
        Err(IoError::WouldBlock) => (Some(0), events & !(interest as i32)),
        Err(IoError::Interrupted) => (None, events),
        Err(e) => (Some(0i32.wrapping_sub(e.errno())), events),
    }
}

} // verus!
