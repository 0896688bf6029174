//! io_uring support detection, ring parameters and submission slots.
use crate::capi::ring::{
    xconfig_s, XCONFIG_FLAG_ATTACH_HANDLE, XCONFIG_FLAG_ATTACH_SINGLE_ISSUER,
};
use crate::error::IoError;
use vstd::prelude::*;

verus! {

/// io_context is polled
pub const IORING_SETUP_IOPOLL: u32 = 0x1;
/// SQ poll thread
pub const IORING_SETUP_SQPOLL: u32 = 0x2;
/// sq_thread_cpu is valid
pub const IORING_SETUP_SQ_AFF: u32 = 0x4;
/// app defines CQ size
pub const IORING_SETUP_CQSIZE: u32 = 0x8;
/// clamp SQ/CQ ring sizes
pub const IORING_SETUP_CLAMP: u32 = 0x10;
/// attach to existing wq
pub const IORING_SETUP_ATTACH_WQ: u32 = 0x20;
/// start with ring disabled
pub const IORING_SETUP_R_DISABLED: u32 = 0x40;
/// continue submit on error
pub const IORING_SETUP_SUBMIT_ALL: u32 = 0x80;
/// Cooperative task running
pub const IORING_SETUP_COOP_TASKRUN: u32 = 0x100;
/// SQEs are 128 byte
pub const IORING_SETUP_SQE128: u32 = 0x400;

/// The number of io_uring operation codes that a probe reports on.
pub const OP_COUNT: usize = 58;

/// A decimal digit character.
pub open spec fn is_digit(c: u8) -> bool {
    48 <= c <= 57
}

/// The byte at `i`, or `0` past the end (the string terminator).
pub open spec fn byte_at(s: Seq<u8>, i: int) -> u8 {
    if 0 <= i < s.len() {
        s[i]
    } else {
        0
    }
}

/// The end of the run of digits that starts at `i`.
pub open spec fn digits_end(s: Seq<u8>, i: int) -> int
    decreases s.len() - i,
{
    if 0 <= i < s.len() && is_digit(s[i]) {
        digits_end(s, i + 1)
    } else {
        i
    }
}

/// The decimal value of the digits `s[a..b]`.
pub open spec fn digits_value(s: Seq<u8>, a: int, b: int) -> int
    decreases b - a,
{
    if b <= a {
        0
    } else {
        digits_value(s, a, b - 1) * 10 + (s[b - 1] - 48)
    }
}

/// The major number of a release string: its leading digits.
pub open spec fn release_major(s: Seq<u8>) -> int {
    digits_value(s, 0, digits_end(s, 0))
}

/// Where the minor digits start, when a `.` follows the major digits.
pub open spec fn minor_start(s: Seq<u8>) -> int {
    digits_end(s, 0) + 1
}

/// Whether a `.` follows the major digits.
pub open spec fn has_minor(s: Seq<u8>) -> bool {
    byte_at(s, digits_end(s, 0)) == 46
}

/// The minor number of a release string: the digits after the first `.`,
/// `0` when there is no `.`.
pub open spec fn release_minor(s: Seq<u8>) -> int {
    if has_minor(s) {
        digits_value(s, minor_start(s), digits_end(s, minor_start(s)))
    } else {
        0
    }
}

proof fn lemma_digits_end_bounds(s: Seq<u8>, i: int)
    requires
        0 <= i,
    ensures
        i <= digits_end(s, i),
        digits_end(s, i) <= s.len() || digits_end(s, i) == i,
        forall|k: int| i <= k < digits_end(s, i) ==> is_digit(#[trigger] s[k]) && k < s.len(),
        !(0 <= digits_end(s, i) < s.len() && is_digit(s[digits_end(s, i)])),
    decreases s.len() - i,
{
    if 0 <= i < s.len() && is_digit(s[i]) {
        lemma_digits_end_bounds(s, i + 1);
    }
}

proof fn lemma_digits_value_mono(s: Seq<u8>, a: int, k: int, b: int)
    requires
        a <= k <= b,
        forall|j: int| a <= j < b ==> is_digit(#[trigger] s[j]),
    ensures
        0 <= digits_value(s, a, k) <= digits_value(s, a, b),
    decreases b - k,
{
    if k < b {
        lemma_digits_value_mono(s, a, k + 1, b);
        lemma_digits_value_nonneg(s, a, k);
    } else {
        lemma_digits_value_nonneg(s, a, k);
    }
}

proof fn lemma_digits_value_nonneg(s: Seq<u8>, a: int, k: int)
    requires
        forall|j: int| a <= j < k ==> is_digit(#[trigger] s[j]),
    ensures
        0 <= digits_value(s, a, k),
    decreases k - a,
{
    if k > a {
        lemma_digits_value_nonneg(s, a, k - 1);
    }
}

/// A kernel version, `major.minor`; `major == -1` when unknown.
#[derive(Debug, Clone, Copy, PartialEq, Eq, Structural)]
pub struct KernelVersion {
    pub major: i32,
    pub minor: i32,
}

/// The version a release string names: its leading `major` and the
/// `minor` after a `.`, or `-1.0` unless `major > 0`.
pub open spec fn parsed_version(s: Seq<u8>) -> KernelVersion {
    if release_major(s) > 0 {
        KernelVersion { major: release_major(s) as i32, minor: release_minor(s) as i32 }
    } else {
        KernelVersion { major: -1i32, minor: 0i32 }
    }
}

impl KernelVersion {
    /// Reads the decimal run that starts at `start`; returns its value and
    /// the position of the first non-digit.
    fn read_number(s: &[u8], start: usize) -> (r: (i32, usize))
        requires
            start <= s@.len(),
            digits_value(s@, start as int, digits_end(s@, start as int)) <= i32::MAX,
        ensures
            r.1 == digits_end(s@, start as int),
            r.0 == digits_value(s@, start as int, digits_end(s@, start as int)),
    {
        proof {
            lemma_digits_end_bounds(s@, start as int);
        }
        let ghost e = digits_end(s@, start as int);
        let mut offset = start;
        let mut value = 0i32;
        while offset < s.len() && 48 <= s[offset] && s[offset] <= 57
            invariant
                start <= offset <= e,
                e <= s@.len(),
                e == digits_end(s@, start as int),
                forall|k: int| start <= k < e ==> is_digit(#[trigger] s@[k]) && k < s@.len(),
                !(0 <= e < s@.len() && is_digit(s@[e])),
                value == digits_value(s@, start as int, offset as int),
                digits_value(s@, start as int, e) <= i32::MAX,
            decreases e - offset,
        {
            proof {
                if offset as int == e {
                    assert(false);
                }
                lemma_digits_value_mono(s@, start as int, offset as int + 1, e);
            }
            value = value * 10 + (s[offset] - 48) as i32;
            offset = offset + 1;
        }
        (value, offset)
    }

    /// Parses a release string such as `6.8.0-generic`; `None` stands for
    /// a null string. Gives `-1.0` unless the major number is positive.
    pub fn from_cstr(cstr: Option<&[u8]>) -> (v: KernelVersion)
        requires
            cstr matches Some(s) ==> release_major(s@) <= i32::MAX,
            cstr matches Some(s) ==> (has_minor(s@) ==> release_minor(s@) <= i32::MAX),
        ensures
            cstr is None ==> v == (KernelVersion { major: -1i32, minor: 0i32 }),
            cstr matches Some(s) ==> v == parsed_version(s@),
    {
        let s = match cstr {
            None => return KernelVersion { major: -1i32, minor: 0i32 },
            Some(s) => s,
        };
        proof {
            lemma_digits_end_bounds(s@, 0);
        }
        let (major, end) = KernelVersion::read_number(s, 0);
        let mut minor = 0i32;
        if end < s.len() && s[end] == 46 {
            proof {
                lemma_digits_end_bounds(s@, end as int + 1);
            }
            let (m, _) = KernelVersion::read_number(s, end + 1);
            minor = m;
        }
        proof {
            if has_minor(s@) {
                lemma_digits_value_nonneg(s@, minor_start(s@), digits_end(s@, minor_start(s@)));
            }
        }
        if major > 0 && minor >= 0 {
            KernelVersion { major, minor }
        } else {
            KernelVersion { major: -1i32, minor: 0i32 }
        }
    }

    /// The version of the running kernel from the release string that
    /// `uname` gave, `0.0` when `uname` failed.
    pub fn from_uname(release: Option<&[u8]>) -> (v: KernelVersion)
        requires
            release matches Some(s) ==> release_major(s@) <= i32::MAX,
            release matches Some(s) ==> (has_minor(s@) ==> release_minor(s@) <= i32::MAX),
        ensures
            release is None ==> v == (KernelVersion { major: 0i32, minor: 0i32 }),
            release matches Some(s) ==> v == parsed_version(s@),
    {
        match release {
            None => KernelVersion { major: 0i32, minor: 0i32 },
            Some(s) => KernelVersion::from_cstr(Some(s)),
        }
    }

    /// The version is at least `major.minor`.
    pub open spec fn spec_ge(self, major: i32, minor: i32) -> bool {
        self.major > major || (self.major == major && self.minor >= minor)
    }

    /// Tells whether the version is at least `major.minor`.
    pub fn ge(&self, major: i32, minor: i32) -> (b: bool)
        ensures
            b == self.spec_ge(major, minor),
    {
        self.major > major || (self.major == major && self.minor >= minor)
    }

    /// io_uring is used from Linux 5.5 (stable submissions, no dropped
    /// completions).
    pub fn has_io_uring(&self) -> (b: bool)
        ensures
            b == self.spec_ge(5, 5),
    {
        self.ge(5, 5)
    }

    pub fn has_registered_buffers(&self) -> (b: bool)
        ensures
            b == self.spec_ge(5, 19),
    {
        self.ge(5, 19)
    }

    pub fn has_msg_ring(&self) -> (b: bool)
        ensures
            b == (self.major >= 6),
    {
        self.major >= 6
    }

    pub fn has_recv_multishot(&self) -> (b: bool)
        ensures
            b == self.spec_ge(5, 13),
    {
        self.ge(5, 13)
    }

    pub fn has_multishot_accept(&self) -> (b: bool)
        ensures
            b == self.spec_ge(5, 13),
    {
        self.ge(5, 13)
    }

    pub fn has_attach_wq(&self) -> (b: bool)
        ensures
            b == self.spec_ge(5, 6),
    {
        self.ge(5, 6)
    }

    pub fn has_sq_thread_idle(&self) -> (b: bool)
        ensures
            b == self.spec_ge(5, 13),
    {
        self.ge(5, 13)
    }

    pub fn has_coop_taskrun(&self) -> (b: bool)
        ensures
            b == self.spec_ge(5, 19),
    {
        self.ge(5, 19)
    }

    pub fn has_setup_submit_all(&self) -> (b: bool)
        ensures
            b == self.spec_ge(5, 18),
    {
        self.ge(5, 18)
    }

    pub fn has_setup_coop_taskrun(&self) -> (b: bool)
        ensures
            b == self.spec_ge(5, 19),
    {
        self.ge(5, 19)
    }

    pub fn has_single_issuer(&self) -> (b: bool)
        ensures
            b == (self.major >= 6),
    {
        self.major >= 6
    }

    pub fn has_incremental_buffer_consumption(&self) -> (b: bool)
        ensures
            b == self.spec_ge(6, 12),
    {
        self.ge(6, 12)
    }

    pub fn has_clone_buffers(&self) -> (b: bool)
        ensures
            b == self.spec_ge(6, 12),
    {
        self.ge(6, 12)
    }
}

/// Which io_uring operations the running kernel supports.
#[derive(Debug)]
pub struct Probe {
    is_supported: [bool; OP_COUNT],
    kernel: KernelVersion,
}

impl Probe {
    /// The kernel version the probe was made for.
    pub closed spec fn kernel(&self) -> KernelVersion {
        self.kernel
    }

    /// Whether operation `op` is supported.
    pub closed spec fn supports(&self, op: int) -> bool {
        self.is_supported@[op]
    }

    /// io_uring is usable: the kernel is recent enough and supports `NOP`.
    pub fn is_supported(&self) -> (b: bool)
        ensures
            b == (self.kernel().spec_ge(5, 5) && self.supports(0)),
    {
        self.kernel.has_io_uring() && self.is_supported[0]
    }

    /// A probe that supports nothing, for an unknown kernel.
    pub fn unsuported() -> (p: Probe)
        ensures
            p.kernel() == (KernelVersion { major: -1i32, minor: 0i32 }),
            forall|op: int| 0 <= op < OP_COUNT ==> !p.supports(op),
    {
        Probe { is_supported: [false; OP_COUNT], kernel: KernelVersion { major: -1i32, minor: 0i32 } }
    }

    /// The probe for `kernel`, from what the kernel's own probe answered for
    /// each operation (`None` when it could not be probed). A kernel without
    /// io_uring, or an unanswered probe, gives the unsupported probe.
    pub fn from_answers(kernel: KernelVersion, answers: Option<&[bool]>) -> (p: Probe)
        ensures
            (!kernel.spec_ge(5, 5) || answers is None) ==> {
                &&& p.kernel() == (KernelVersion { major: -1i32, minor: 0i32 })
                &&& forall|op: int| 0 <= op < OP_COUNT ==> !p.supports(op)
            },
            kernel.spec_ge(5, 5) ==> (answers matches Some(a) ==> {
                &&& p.kernel() == kernel
                &&& forall|op: int|
                    0 <= op < OP_COUNT ==> p.supports(op) == (op < a@.len() && a@[op])
            }),
    {
        if !kernel.has_io_uring() {
            return Probe::unsuported();
        }
        let answers = match answers {
            None => return Probe::unsuported(),
            Some(a) => a,
        };
        let mut is_supported = [false; OP_COUNT];
        let mut op: usize = 0;
        while op < OP_COUNT
            invariant
                op <= OP_COUNT,
                forall|k: int| 0 <= k < op ==> is_supported@[k] == (k < answers@.len() && answers@[k]),
                forall|k: int| op <= k < OP_COUNT ==> !is_supported@[k],
            decreases OP_COUNT - op,
        {
            let v = op < answers.len() && answers[op];
            is_supported[op] = v;
            op = op + 1;
        }
        Probe { is_supported, kernel }
    }
}

/// The parameters given to `io_uring_setup`.
#[derive(Debug, Clone, Copy, PartialEq, Eq, Structural)]
pub struct URingParams {
    pub sq_entries: u32,
    pub cq_entries: u32,
    pub flags: u32,
    pub wq_fd: u32,
    pub sq_thread_idle: u32,
}

/// The kernel polls the submission queue: the user asked for it, for a
/// single issuer, and the kernel has an idle timeout.
pub open spec fn wants_sq_poll(config: xconfig_s, kernel: KernelVersion) -> bool {
    config.kernel_poll_timeout_ms > 0 && kernel.spec_ge(5, 13) && config.flags
        & XCONFIG_FLAG_ATTACH_SINGLE_ISSUER != 0
}

/// Computes the setup parameters of a new ring for `config` on `kernel`,
/// and adjusts `config` to what will be used: the attach flag is dropped
/// unless the kernel can attach, the single-issuer flag and the kernel
/// polling timeout are dropped (kernel polling is not offered).
pub fn setup_params(config: &mut xconfig_s, kernel: &KernelVersion) -> (p: URingParams)
    requires
        !wants_sq_poll(*old(config), *kernel),
    ensures
        p.sq_entries == old(config).submission_queue_depth,
        p.cq_entries == old(config).completion_queue_depth,
        p.sq_thread_idle == 0,
        p.flags == (IORING_SETUP_CQSIZE | IORING_SETUP_R_DISABLED)
            | (if kernel.spec_ge(5, 6) { IORING_SETUP_CLAMP } else { 0 })
            | (if old(config).flags & XCONFIG_FLAG_ATTACH_HANDLE != 0 && kernel.spec_ge(5, 6) {
                IORING_SETUP_ATTACH_WQ
            } else {
                0
            })
            | (if kernel.spec_ge(5, 19) { IORING_SETUP_COOP_TASKRUN } else { 0 })
            | (if kernel.spec_ge(5, 18) { IORING_SETUP_SUBMIT_ALL } else { 0 }),
        p.wq_fd == if old(config).flags & XCONFIG_FLAG_ATTACH_HANDLE != 0 && kernel.spec_ge(5, 6) {
            old(config).attach_handle as u32
        } else {
            0xffff_ffffu32
        },
        final(config).flags == if old(config).flags & XCONFIG_FLAG_ATTACH_HANDLE != 0
            && kernel.spec_ge(5, 6) {
            old(config).flags & !XCONFIG_FLAG_ATTACH_SINGLE_ISSUER
        } else {
            old(config).flags & !XCONFIG_FLAG_ATTACH_HANDLE & !XCONFIG_FLAG_ATTACH_SINGLE_ISSUER
        },
        final(config).kernel_poll_timeout_ms == 0,
        final(config).submission_queue_depth == old(config).submission_queue_depth,
        final(config).completion_queue_depth == old(config).completion_queue_depth,
        final(config).attach_handle == old(config).attach_handle,
        final(config).max_number_of_fd_hint == old(config).max_number_of_fd_hint,
        final(config).max_number_of_threads == old(config).max_number_of_threads,
{
    let mut p = URingParams {
        sq_entries: config.submission_queue_depth,
        cq_entries: config.completion_queue_depth,
        flags: IORING_SETUP_CQSIZE | IORING_SETUP_R_DISABLED,
        wq_fd: 0,
        sq_thread_idle: 0,
    };
    let ghost f0 = p.flags;
    let clamp = if kernel.ge(5, 6) { IORING_SETUP_CLAMP } else { 0 };
    p.flags = p.flags | clamp;
    let attach = (config.flags & XCONFIG_FLAG_ATTACH_HANDLE) != 0 && kernel.has_attach_wq();
    let attach_wq = if attach {
        p.wq_fd = config.attach_handle as u32;
        IORING_SETUP_ATTACH_WQ
    } else {
        config.flags = config.flags & !XCONFIG_FLAG_ATTACH_HANDLE;
        p.wq_fd = 0xffff_ffffu32;
        0
    };
    p.flags = p.flags | attach_wq;
    config.flags = config.flags & !XCONFIG_FLAG_ATTACH_SINGLE_ISSUER;
    let coop = if kernel.has_setup_coop_taskrun() { IORING_SETUP_COOP_TASKRUN } else { 0 };
    p.flags = p.flags | coop;
    config.kernel_poll_timeout_ms = 0;
    let submit_all = if kernel.has_setup_submit_all() { IORING_SETUP_SUBMIT_ALL } else { 0 };
    p.flags = p.flags | submit_all;
    p
}

/// Adopts the outcome of setting a ring up with the parameters of
/// `setup_params`: when the setup `status` is not negative, the ring was
/// made and `config` takes the queue depths the kernel actually gave
/// (`sq_ring_entries`, `cq_ring_entries`); otherwise `config` is left as it
/// is and the error is the negated `status`.
pub fn adopt_ring_depths(
    config: &mut xconfig_s,
    status: i32,
    sq_ring_entries: u32,
    cq_ring_entries: u32,
) -> (r: Result<(), IoError>)
    requires
        status != i32::MIN,
    ensures
        status >= 0 ==> r == Ok::<(), IoError>(()) && *final(config) == (xconfig_s {
            submission_queue_depth: sq_ring_entries,
            completion_queue_depth: cq_ring_entries,
            ..*old(config)
        }),
        status < 0 ==> r == Err::<(), IoError>(IoError::Os(-status as i32)) && *final(config)
            == *old(config),
{
    if status >= 0 {
        config.submission_queue_depth = sq_ring_entries;
        config.completion_queue_depth = cq_ring_entries;
        Ok(())
    } else {
        Err(IoError::Os(-status))
    }
}

/// The next free submission slot of a ring: `tail` is the local tail,
/// `head` the kernel's head.
pub struct SubmissionQueue {
    pub tail: u32,
    pub ring_entries: u32,
    pub ring_mask: u32,
    pub setup_flags: u32,
}

impl SubmissionQueue {
    /// Claims the next submission slot; returns its entry offset in the
    /// submission array, or `WouldBlock` when the ring is full.
    pub fn next(&mut self, head: u32) -> (r: Result<u32, IoError>)
        ensures
            final(self).ring_entries == old(self).ring_entries,
            final(self).ring_mask == old(self).ring_mask,
            final(self).setup_flags == old(self).setup_flags,
            ({
                let next = ((old(self).tail + 1) % 0x1_0000_0000) as u32;
                let used = ((next - head + 0x1_0000_0000) % 0x1_0000_0000) as u32;
                if used <= old(self).ring_entries {
                    &&& final(self).tail == next
                    &&& r == Ok::<u32, IoError>(
                        (old(self).tail & old(self).ring_mask) << (if old(self).setup_flags
                            & IORING_SETUP_SQE128 != 0 {
                            1u32
                        } else {
                            0u32
                        }),
                    )
                } else {
                    &&& final(self).tail == old(self).tail
                    &&& r == Err::<u32, IoError>(IoError::WouldBlock)
                }
            }),
    {
        let next: u32 = self.tail.wrapping_add(1);
        let used: u32 = next.wrapping_sub(head);
        if used <= self.ring_entries {
            let shift: u32 = if (self.setup_flags & IORING_SETUP_SQE128) != 0 {
                1
            } else {
                0
            };
            let offset = (self.tail & self.ring_mask).wrapping_shl(shift);
            self.tail = next;
            Ok(offset)
        } else {
            Err(IoError::WouldBlock)
        }
    }
}

/// A kernel that is at least some version is at least every earlier one:
/// a feature needing an older kernel is there whenever one needing a newer
/// kernel is.
pub proof fn law_ge_is_monotone(v: KernelVersion, major: i32, minor: i32, older_major: i32, older_minor: i32)
    requires
        v.spec_ge(major, minor),
        older_major < major || (older_major == major && older_minor <= minor),
    ensures
        v.spec_ge(older_major, older_minor),
{
}

} // verus!
