//! IO drivers: their kinds, their configuration, and the driver that
//! supports nothing.
use crate::capi::ring::{
    xconfig_s, XCONFIG_FLAG_ATTACH_SINGLE_ISSUER, XCONFIG_FLAG_CLOSE_ON_EXEC,
    XCONFIG_FLAG_FAST_POLL,
};
use crate::error::IoError;
use crate::num_ext::clamp_u32;
use crate::ready_list::ReadyList;
use crate::request::Request;
use vstd::prelude::*;

verus! {

/// A native driver handle (a file descriptor).
pub type DriverHandle = i32;

/// The handle of a driver that has none.
pub const AN_INVALID_DRIVER_HANDLE: DriverHandle = -1;

/// Tries to reuse the sharable handle in `DriverConfig::attach_handle`.
pub const DRIVER_FLAG_ATTACH_HANDLE: u32 = 0x1;
/// Closes the driver handle on exec.
pub const DRIVER_FLAG_CLOSE_ON_EXEC: u32 = 0x2;

/// The operations a driver offers.
pub trait DriverIFace {
    fn name(&self) -> &'static str;

    fn config(&self) -> &DriverConfig;

    fn wait(&mut self, reqs: &mut Vec<Request>, ready_list: &mut ReadyList, timeout_ms: i32) -> Result<(), IoError>;

    fn submit(&mut self, reqs: &mut Vec<Request>, req: usize) -> Result<(), IoError>;

    fn cancel(&mut self, reqs: &mut Vec<Request>, req: usize) -> Result<(), IoError>;

    fn wake(&self) -> Result<(), IoError>;

    fn get_native_handle(&self) -> DriverHandle;
}

/// The kinds of driver.
#[derive(Debug, Clone, Copy, PartialEq, Eq, Structural)]
pub enum DriverKind {
    URing,
    EPoll,
    KQueue,
    IOCP,
    Poll,
    Null,
}

/// The name of a driver kind.
pub open spec fn kind_name(kind: DriverKind) -> Seq<char> {
    match kind {
        DriverKind::URing => "URing"@,
        DriverKind::EPoll => "EPoll"@,
        DriverKind::KQueue => "KQueue"@,
        DriverKind::IOCP => "IOCP"@,
        DriverKind::Poll => "Poll"@,
        DriverKind::Null => "None"@,
    }
}

impl DriverKind {
    /// The name of the kind.
    pub fn name(&self) -> (s: &'static str)
        ensures
            s@ == kind_name(*self),
    {
        match self {
            DriverKind::URing => "URing",
            DriverKind::EPoll => "EPoll",
            DriverKind::KQueue => "KQueue",
            DriverKind::IOCP => "IOCP",
            DriverKind::Poll => "Poll",
            DriverKind::Null => "None",
        }
    }
}

/// IO Driver parameters
#[derive(Debug, Clone, Copy, PartialEq, Eq, Structural)]
pub struct DriverConfig {
    /// submission queue depth
    pub submission_queue_depth: u32,
    /// completion queue depth
    pub completion_queue_depth: u32,
    /// kernel busy-polling loop timeout in milliseconds, or 0 to deactivate kernel polling
    pub kernel_poll_timeout_ms: u32,
    /// Flags
    pub flags: u32,
    /// A sharable driver handle when (flags & DRIVER_FLAG_ATTACH_HANDLE)
    pub attach_handle: usize,
    /// An hint on the maximal number of file descriptor
    pub max_number_of_fd_hint: u32,
    /// An hint on the maximum number of io threads (Kernel or Userspace) or 0 for defaults
    pub max_number_of_threads: u32,
}

/// A configuration whose fields are all zero.
pub open spec fn zero_config() -> DriverConfig {
    DriverConfig {
        submission_queue_depth: 0,
        completion_queue_depth: 0,
        kernel_poll_timeout_ms: 0,
        flags: 0,
        attach_handle: 0,
        max_number_of_fd_hint: 0,
        max_number_of_threads: 0,
    }
}

/// `v` limited to `[min, max]`.
pub open spec fn clamped(v: u32, min: u32, max: u32) -> u32 {
    if v < min {
        min
    } else if v > max {
        max
    } else {
        v
    }
}

impl Default for DriverConfig {
    fn default() -> (c: Self)
        ensures
            c == (DriverConfig {
                submission_queue_depth: 64,
                completion_queue_depth: 128,
                kernel_poll_timeout_ms: 1000,
                flags: DRIVER_FLAG_CLOSE_ON_EXEC,
                attach_handle: usize::MAX,
                max_number_of_fd_hint: 256,
                max_number_of_threads: 0,
            }),
    {
        Self {
            submission_queue_depth: 64,
            completion_queue_depth: 128,
            kernel_poll_timeout_ms: 1000,
            flags: DRIVER_FLAG_CLOSE_ON_EXEC,
            attach_handle: usize::MAX,
            max_number_of_fd_hint: 256,
            max_number_of_threads: 0,
        }
    }
}

fn zeroed_config() -> (c: DriverConfig)
    ensures
        c == zero_config(),
{
    DriverConfig {
        submission_queue_depth: 0,
        completion_queue_depth: 0,
        kernel_poll_timeout_ms: 0,
        flags: 0,
        attach_handle: 0,
        max_number_of_fd_hint: 0,
        max_number_of_threads: 0,
    }
}

/// The configuration an epoll driver runs with for the requested `config`:
/// only the attach and close-on-exec flags are kept, no handle is attached,
/// and the descriptor hint is limited to `[1, 1000000]`.
pub fn epoll_driver_config(config: &DriverConfig) -> (c: DriverConfig)
    ensures
        c == (DriverConfig {
            flags: config.flags & (DRIVER_FLAG_ATTACH_HANDLE | DRIVER_FLAG_CLOSE_ON_EXEC),
            attach_handle: usize::MAX,
            max_number_of_fd_hint: clamped(config.max_number_of_fd_hint, 1, 1000000),
            ..zero_config()
        }),
{
    let mut real_config = zeroed_config();
    real_config.flags = config.flags & (DRIVER_FLAG_ATTACH_HANDLE | DRIVER_FLAG_CLOSE_ON_EXEC);
    real_config.attach_handle = usize::MAX;
    real_config.max_number_of_fd_hint = clamp_u32(config.max_number_of_fd_hint, 1, 1000000);
    real_config
}

/// The configuration an IO completion port driver runs with for the
/// requested `config`: no flag, no attached handle, the descriptor hint
/// limited to `[1, 1000000]` and the hint on the number of threads limited
/// to `[0, 65536]`.
pub fn iocp_driver_config(config: &DriverConfig) -> (c: DriverConfig)
    ensures
        c == (DriverConfig {
            attach_handle: usize::MAX,
            max_number_of_fd_hint: clamped(config.max_number_of_fd_hint, 1, 1000000),
            max_number_of_threads: clamped(config.max_number_of_threads, 0, 65536),
            ..zero_config()
        }),
{
    let mut real_config = zeroed_config();
    real_config.attach_handle = usize::MAX;
    real_config.max_number_of_fd_hint = clamp_u32(config.max_number_of_fd_hint, 1, 1000000);
    real_config.max_number_of_threads = clamp_u32(config.max_number_of_threads, 0, 65536);
    real_config
}

/// The configuration a Windows driver runs with for the requested
/// `config`. When it asks to attach, the given handle is kept (and must not
/// be the invalid handle, else `InvalidInput`) with all the requested flags;
/// otherwise a new port is to be made, with no flag and no handle.
pub fn windows_driver_config(config: &DriverConfig) -> (r: Result<DriverConfig, IoError>)
    ensures
        config.flags & DRIVER_FLAG_ATTACH_HANDLE != 0 && config.attach_handle == usize::MAX ==> r
            == Err::<DriverConfig, IoError>(IoError::InvalidInput),
        config.flags & DRIVER_FLAG_ATTACH_HANDLE != 0 && config.attach_handle != usize::MAX ==> r
            == Ok::<DriverConfig, IoError>(
            DriverConfig {
                flags: config.flags,
                attach_handle: config.attach_handle,
                max_number_of_fd_hint: clamped(config.max_number_of_fd_hint, 1, 1000000),
                max_number_of_threads: clamped(config.max_number_of_threads, 0, 65536),
                ..zero_config()
            },
        ),
        config.flags & DRIVER_FLAG_ATTACH_HANDLE == 0 ==> r == Ok::<DriverConfig, IoError>(
            DriverConfig {
                flags: 0,
                attach_handle: usize::MAX,
                max_number_of_fd_hint: clamped(config.max_number_of_fd_hint, 1, 1000000),
                max_number_of_threads: clamped(config.max_number_of_threads, 0, 65536),
                ..zero_config()
            },
        ),
{
    let mut real_config = zeroed_config();
    real_config.flags = config.flags & DRIVER_FLAG_ATTACH_HANDLE;
    real_config.attach_handle = usize::MAX;
    real_config.max_number_of_fd_hint = clamp_u32(config.max_number_of_fd_hint, 1, 1000000);
    real_config.max_number_of_threads = clamp_u32(config.max_number_of_threads, 0, 65536);
    proof {
        let f = config.flags;
        assert(f & 1u32 & 1u32 == f & 1u32) by (bit_vector);
    }
    if (real_config.flags & DRIVER_FLAG_ATTACH_HANDLE) != 0 {
        if config.attach_handle == usize::MAX {
            return Err(IoError::InvalidInput);
        }
        real_config.flags = config.flags;
        real_config.attach_handle = config.attach_handle;
    }
    Ok(real_config)
}

/// The configuration the Linux driver runs with for `hints`: the
/// submission depth limited to `[16, 4096]`, the completion depth at least
/// twice it (else limited to `[16, 4096]`), and only the fast-poll,
/// close-on-exec and single-issuer flags.
pub fn linux_driver_config(hints: &xconfig_s) -> (c: xconfig_s)
    ensures
        c.submission_queue_depth == clamped(hints.submission_queue_depth, 16, 4096),
        c.completion_queue_depth == if hints.completion_queue_depth < c.submission_queue_depth
            * 2 {
            c.submission_queue_depth * 2
        } else {
            clamped(hints.completion_queue_depth, 16, 4096) as int
        },
        c.flags == hints.flags & (XCONFIG_FLAG_FAST_POLL | XCONFIG_FLAG_CLOSE_ON_EXEC
            | XCONFIG_FLAG_ATTACH_SINGLE_ISSUER),
        c.kernel_poll_timeout_ms == hints.kernel_poll_timeout_ms,
        c.attach_handle == hints.attach_handle,
        c.max_number_of_fd_hint == hints.max_number_of_fd_hint,
        c.max_number_of_threads == hints.max_number_of_threads,
{
    let mut config = *hints;
    config.submission_queue_depth = clamp_u32(config.submission_queue_depth, 16, 4096);
    if config.completion_queue_depth < config.submission_queue_depth * 2 {
        config.completion_queue_depth = config.submission_queue_depth * 2;
    } else {
        config.completion_queue_depth = clamp_u32(config.completion_queue_depth, 16, 4096);
    }
    config.flags = config.flags & (XCONFIG_FLAG_FAST_POLL | XCONFIG_FLAG_CLOSE_ON_EXEC
        | XCONFIG_FLAG_ATTACH_SINGLE_ISSUER | XCONFIG_FLAG_CLOSE_ON_EXEC);
    proof {
        let f = hints.flags;
        assert(f & (8u32 | 4u32 | 1u32 | 4u32) == f & (8u32 | 4u32 | 1u32)) by (bit_vector);
    }
    config
}

/// Which backends the Linux driver opens: `(ring, epoll)`. With io_uring it
/// opens a ring, and an epoll instance too when fast polling is asked for;
/// without it, only an epoll instance.
pub fn linux_driver_backends(config: &xconfig_s, uring_supported: bool) -> (r: (bool, bool))
    ensures
        r == if uring_supported {
            (true, config.flags & XCONFIG_FLAG_FAST_POLL != 0)
        } else {
            (false, true)
        },
{
    if uring_supported {
        (true, (config.flags & XCONFIG_FLAG_FAST_POLL) != 0)
    } else {
        (false, true)
    }
}

/// The driver that a kind of driver opens.
#[derive(Debug, Clone, Copy, PartialEq, Eq, Structural)]
pub enum DriverBackend {
    /// An epoll instance.
    EPoll,
    /// An I/O completion port.
    IOCP,
    /// The driver that supports nothing, named after the kind asked for.
    Unsupported,
}

/// The driver that `kind` opens: epoll on Linux, a completion port on
/// Windows, and otherwise the driver that supports nothing.
pub fn driver_backend(kind: DriverKind, linux: bool, windows: bool) -> (b: DriverBackend)
    ensures
        b == match kind {
            DriverKind::EPoll => if linux {
                DriverBackend::EPoll
            } else {
                DriverBackend::Unsupported
            },
            DriverKind::IOCP => if windows {
                DriverBackend::IOCP
            } else {
                DriverBackend::Unsupported
            },
            _ => DriverBackend::Unsupported,
        },
{
    match kind {
        DriverKind::EPoll => if linux {
            DriverBackend::EPoll
        } else {
            DriverBackend::Unsupported
        },
        DriverKind::IOCP => if windows {
            DriverBackend::IOCP
        } else {
            DriverBackend::Unsupported
        },
        _ => DriverBackend::Unsupported,
    }
}

/// Where the Linux driver listens for its waker.
#[derive(Debug, Clone, Copy, PartialEq, Eq, Structural)]
pub enum WakerTarget {
    /// A read of the waker queued on the ring.
    Ring,
    /// A readable registration on the epoll instance.
    EPoll,
}

/// Where the Linux driver listens for its waker: on the ring when it opened
/// one, else on its epoll instance.
pub fn waker_target(ring_is_valid: bool) -> (t: WakerTarget)
    ensures
        t == if ring_is_valid {
            WakerTarget::Ring
        } else {
            WakerTarget::EPoll
        },
{
    if ring_is_valid {
        WakerTarget::Ring
    } else {
        WakerTarget::EPoll
    }
}

/// The capacity of a ring's timer heap: the submission queue depth, at
/// least 64.
pub fn ring_timer_capacity(config: &DriverConfig) -> (c: usize)
    ensures
        c == if config.submission_queue_depth < 64 {
            64
        } else {
            config.submission_queue_depth as usize
        },
{
    let timer_capacity = config.submission_queue_depth as usize;
    if timer_capacity < 64 {
        64
    } else {
        timer_capacity
    }
}

/// A driver that supports no operation.
#[derive(Debug)]
pub struct DriverNone {
    name: &'static str,
    config: DriverConfig,
}

impl View for DriverNone {
    type V = (Seq<char>, DriverConfig);

    /// The driver's name and configuration.
    closed spec fn view(&self) -> (Seq<char>, DriverConfig) {
        (self.name@, self.config)
    }
}

impl Default for DriverNone {
    fn default() -> (d: Self)
        ensures
            d@.0 == "None"@,
            d@.1 == (DriverConfig {
                submission_queue_depth: 64,
                completion_queue_depth: 128,
                kernel_poll_timeout_ms: 1000,
                flags: DRIVER_FLAG_CLOSE_ON_EXEC,
                attach_handle: usize::MAX,
                max_number_of_fd_hint: 256,
                max_number_of_threads: 0,
            }),
    {
        Self { name: "None", config: DriverConfig::default() }
    }
}

impl DriverNone {
    /// A driver named `name` (by default "None") for the requested
    /// `config`: only close-on-exec is set and the descriptor hint is
    /// limited to `[1, 1000000]`.
    pub fn new(config: &DriverConfig, name: Option<&'static str>) -> (r: Result<Self, IoError>)
        ensures
            r matches Ok(d) && d@.1 == (DriverConfig {
                flags: DRIVER_FLAG_CLOSE_ON_EXEC,
                max_number_of_fd_hint: clamped(config.max_number_of_fd_hint, 1, 1000000),
                ..zero_config()
            }) && d@.0 == match name {
                Some(n) => n@,
                None => "None"@,
            },
    {
        let mut real_config = zeroed_config();
        real_config.max_number_of_fd_hint = clamp_u32(config.max_number_of_fd_hint, 1, 1000000);
        real_config.flags = DRIVER_FLAG_CLOSE_ON_EXEC;
        let name = match name {
            Some(n) => n,
            None => "None",
        };
        Ok(DriverNone { name, config: real_config })
    }

    /// The driver's name.
    pub fn driver_name(&self) -> (s: &'static str)
        ensures
            s@ == self@.0,
    {
        self.name
    }

    /// The driver's configuration.
    pub fn driver_config(&self) -> (c: &DriverConfig)
        ensures
            *c == self@.1,
    {
        &self.config
    }
}

impl DriverIFace for DriverNone {
    fn name(&self) -> (s: &'static str)
        ensures
            s@ == self@.0,
    {
        self.name
    }

    fn config(&self) -> (c: &DriverConfig)
        ensures
            *c == self@.1,
    {
        &self.config
    }

    fn wait(&mut self, reqs: &mut Vec<Request>, ready_list: &mut ReadyList, timeout_ms: i32) -> (r: Result<(), IoError>)
        ensures
            r == Err::<(), IoError>(IoError::Unsupported),
            final(reqs)@ == old(reqs)@,
    {
        Err(IoError::Unsupported)
    }

    fn submit(&mut self, reqs: &mut Vec<Request>, req: usize) -> (r: Result<(), IoError>)
        ensures
            r == Err::<(), IoError>(IoError::Unsupported),
            final(reqs)@ == old(reqs)@,
    {
        Err(IoError::Unsupported)
    }

    fn cancel(&mut self, reqs: &mut Vec<Request>, req: usize) -> (r: Result<(), IoError>)
        ensures
            r == Err::<(), IoError>(IoError::NotFound),
            final(reqs)@ == old(reqs)@,
    {
        Err(IoError::NotFound)
    }

    fn wake(&self) -> (r: Result<(), IoError>)
        ensures
            r == Err::<(), IoError>(IoError::Unsupported),
    {
        Err(IoError::Unsupported)
    }

    fn get_native_handle(&self) -> (h: DriverHandle)
        ensures
            h == AN_INVALID_DRIVER_HANDLE,
    {
        AN_INVALID_DRIVER_HANDLE
    }
}

} // verus!
