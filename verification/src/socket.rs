//! Raw socket descriptors.
use crate::error::IoError;
use vstd::prelude::*;

verus! {

/// A raw socket descriptor; negative values are invalid.
#[derive(Debug, Clone, Copy, PartialEq, Eq, Structural, Hash, PartialOrd, Ord)]
pub struct RawSocketFd {
    pub inner: i32,
}

impl RawSocketFd {
    /// Wraps `fd`.
    pub fn new(fd: i32) -> (s: Self)
        ensures
            s.inner == fd,
    {
        Self { inner: fd }
    }

    /// The invalid descriptor `-1`.
    pub fn invalid() -> (s: Self)
        ensures
            s.inner == -1,
    {
        Self { inner: -1i32 }
    }

    /// Tells whether the descriptor is not negative.
    pub fn is_valid(&self) -> (b: bool)
        ensures
            b == (self.inner >= 0),
    {
        self.inner >= 0
    }
}

/// The IPv4 address family.
pub const AF_INET: i32 = 2;
/// The stream socket type.
pub const SOCK_STREAM: i32 = 1;
/// The TCP protocol.
pub const IPPROTO_TCP: i32 = 6;

/// Whether a connected pair can be made of sockets of `domain`, `typ` and
/// `protocol`: only IPv4 stream sockets, over TCP when a protocol is
/// given; anything else is `InvalidInput`.
pub fn socketpair_args(domain: i32, typ: i32, protocol: Option<i32>) -> (r: Result<(), IoError>)
    ensures
        r == if domain == AF_INET && typ == SOCK_STREAM && (protocol is None || protocol == Some(
            IPPROTO_TCP,
        )) {
            Ok::<(), IoError>(())
        } else {
            Err::<(), IoError>(IoError::InvalidInput)
        },
{
    if domain != AF_INET {
        return Err(IoError::InvalidInput);
    }
    if typ != SOCK_STREAM {
        return Err(IoError::InvalidInput);
    }
    match protocol {
        Some(p) => if p != IPPROTO_TCP {
            return Err(IoError::InvalidInput);
        },
        None => {},
    }
    Ok(())
}

/// A connected pair is kept when each end's peer is the other end, else
/// it is refused with `Other`.
pub fn socketpair_outcome(peers_match: bool) -> (r: Result<(), IoError>)
    ensures
        r == if peers_match {
            Ok::<(), IoError>(())
        } else {
            Err::<(), IoError>(IoError::Other)
        },
{
    if peers_match {
        Ok(())
    } else {
        Err(IoError::Other)
    }
}

} // verus!
