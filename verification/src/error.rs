use vstd::prelude::*;

verus! {

/// The kinds of failure that the library reports, named after the
/// matching `std::io::ErrorKind` variants; `Os` carries a raw `errno` value.
#[derive(Debug, Clone, Copy, PartialEq, Eq, Structural)]
pub enum IoError {
    NotFound,
    AlreadyExists,
    InvalidInput,
    OutOfMemory,
    Unsupported,
    ResourceBusy,
    WouldBlock,
    Interrupted,
    TimedOut,
    Other,
    Os(i32),
}

pub const EINTR: i32 = 4;
pub const EIO: i32 = 5;
pub const EAGAIN: i32 = 11;
pub const ENOMEM: i32 = 12;
pub const EBUSY: i32 = 16;
pub const EEXIST: i32 = 17;
pub const EINVAL: i32 = 22;
pub const ENOSYS: i32 = 38;
pub const ETIMEDOUT: i32 = 110;
pub const ENOENT: i32 = 2;
pub const ECANCELED: i32 = 125;

/// The `errno` value of an error.
pub open spec fn spec_errno(e: IoError) -> i32 {
    match e {
        IoError::NotFound => ENOENT,
        IoError::AlreadyExists => EEXIST,
        IoError::InvalidInput => EINVAL,
        IoError::OutOfMemory => ENOMEM,
        IoError::Unsupported => ENOSYS,
        IoError::ResourceBusy => EBUSY,
        IoError::WouldBlock => EAGAIN,
        IoError::Interrupted => EINTR,
        IoError::TimedOut => ETIMEDOUT,
        IoError::Other => EIO,
        IoError::Os(code) => code,
    }
}

impl IoError {
    /// The `errno` value of the error.
    pub fn errno(&self) -> (code: i32)
        ensures
            code == spec_errno(*self),
    {
        match self {
            IoError::NotFound => ENOENT,
            IoError::AlreadyExists => EEXIST,
            IoError::InvalidInput => EINVAL,
            IoError::OutOfMemory => ENOMEM,
            IoError::Unsupported => ENOSYS,
            IoError::ResourceBusy => EBUSY,
            IoError::WouldBlock => EAGAIN,
            IoError::Interrupted => EINTR,
            IoError::TimedOut => ETIMEDOUT,
            IoError::Other => EIO,
            IoError::Os(code) => *code,
        }
    }
}

/// Each kind of error has its own positive `errno` value, so a C caller
/// can tell the kinds apart; a raw system error keeps its own code.
pub proof fn law_errno_tells_kinds_apart(a: IoError, b: IoError)
    ensures
        !(a is Os) ==> spec_errno(a) > 0,
        !(a is Os) && !(b is Os) && a != b ==> spec_errno(a) != spec_errno(b),
        a matches IoError::Os(code) ==> spec_errno(a) == code,
{
}

} // verus!
