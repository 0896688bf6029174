//! Coroutine stacks: their sizes, their guard pages, and where a mapping
//! puts them.
use core::ops::Range;
use vstd::prelude::*;

verus! {

/// The machine's allocation granularity, from `page_size::get_granularity`.
/// The crate reads it from the system once and caches it. Claimed: it is
/// not zero (on Unix it is `sysconf(_SC_PAGESIZE)` cast to `usize`, which
/// is at least one, or all ones on error; elsewhere a page size the system
/// reports or the fixed 65536). Which value it is depends on the machine,
/// and is left unsaid.
#[verifier::external_body]
fn granularity() -> (g: usize)
    ensures
        g > 0,
{
    page_size::get_granularity()
}

/// The total size of a default stack, guard page included.
pub const DEFAULT_TOTAL_SIZE: usize = 65536 * (usize::BITS as usize / 8);

/// The total size, guard included, of a stack asked for with `size_hint`
/// when the guard takes `guard_size` bytes and pages are `page_size` bytes:
/// the hint (at least one byte) plus the guard, rounded up to the page.
/// Every step wraps as machine arithmetic does.
pub open spec fn spec_total_size_for(size_hint: usize, guard_size: usize, page_size: usize) -> usize {
    let need = size_hint.wrapping_add(guard_size).wrapping_add(
        if size_hint == 0 {
            1usize
        } else {
            0usize
        },
    );
    let mask = page_size.wrapping_sub(1);
    need.wrapping_add(mask) & !mask
}

/// A page size is a power of two.
pub open spec fn is_power_of_two(n: usize) -> bool {
    n > 0 && n & ((n - 1) as usize) == 0
}

/// Rounding up to a power of two gives the least multiple of it that is
/// not below the input.
proof fn lemma_round_up(x: usize, page: usize, mask: usize, r: usize)
    requires
        page > 0,
        mask == page - 1,
        page & mask == 0,
        x + mask <= usize::MAX,
        r == ((x + mask) as usize) & !mask,
    ensures
        r & mask == 0,
        x <= r < x + page,
{
    let y = (x + mask) as usize;
    assert(y == x + mask);
    assert(r & mask == 0) by (bit_vector)
        requires
            r == y & !mask,
    ;
    assert(x <= r && r < x + page) by (bit_vector)
        requires
            page > 0,
            mask == page - 1,
            page & mask == 0,
            y == x + mask,
            r == y & !mask,
    ;
}

/// A page size for which the default stack comes out exact: one below the
/// default total size that divides it.
pub open spec fn default_page_ok(page: usize) -> bool {
    &&& 0 < page < DEFAULT_TOTAL_SIZE
    &&& DEFAULT_TOTAL_SIZE % page == 0
}

/// The default total size is a power of two, so each page size that
/// divides it is one too, and its mask clears no bit of the default size.
proof fn lemma_default_page_bits(page: usize)
    requires
        default_page_ok(page),
    ensures
        page & ((page - 1) as usize) == 0,
        DEFAULT_TOTAL_SIZE & ((page - 1) as usize) == 0,
{
    let p = page as u64;
    let m = (page - 1) as usize;
    if usize::BITS == 64 {
        assert(DEFAULT_TOTAL_SIZE == 0x80000);
        assert(p & ((p - 1) as u64) == 0 && 0x80000u64 & ((p - 1) as u64) == 0) by (bit_vector)
            requires
                0 < p < 0x80000,
                0x80000u64 % p == 0,
        ;
    } else {
        assert(DEFAULT_TOTAL_SIZE == 0x40000);
        assert(p & ((p - 1) as u64) == 0 && 0x40000u64 & ((p - 1) as u64) == 0) by (bit_vector)
            requires
                0 < p < 0x40000,
                0x40000u64 % p == 0,
        ;
    }
    let d = DEFAULT_TOTAL_SIZE;
    assert(page & m == 0 && d & m == 0) by (bit_vector)
        requires
            p == page as u64,
            m == page - 1,
            page > 0,
            p & ((p - 1) as u64) == 0,
            (d as u64) & ((p - 1) as u64) == 0,
    ;
}

/// Sizing a stack for the default usable size (the default total size less
/// one guard page) gives back the default total size, whenever the page
/// (and guard) size divides it and is smaller.
pub proof fn law_default_size_round_trip(page: usize)
    requires
        default_page_ok(page),
    ensures
        spec_total_size_for(DEFAULT_TOTAL_SIZE.wrapping_sub(page), page, page) == DEFAULT_TOTAL_SIZE,
{
    lemma_default_page_bits(page);
    let d = DEFAULT_TOTAL_SIZE;
    let m = (page - 1) as usize;
    assert(d.wrapping_sub(page) == d - page);
    assert((d - page) as usize != 0);
    assert(((d - page) as usize).wrapping_add(page) == d);
    assert(d.wrapping_add(0usize) == d);
    assert(page.wrapping_sub(1) == m);
    assert(d + m <= usize::MAX);
    assert(d.wrapping_add(m) == (d + m) as usize);
    let y = (d + m) as usize;
    assert(y & !m == d) by (bit_vector)
        requires
            page > 0,
            m == page - 1,
            page & m == 0,
            d & m == 0,
            y == d + m,
    ;
}

/// What a stack holds: its total size (guard included), the size of its
/// guard (one page, as read when the stack was sized; `0` for a thread's
/// own stack) and the address of its usable bottom, `0` while no memory is
/// attached.
pub struct StackView {
    pub total_size: usize,
    pub guard_size: usize,
    pub bottom: usize,
}

/// A coroutine stack.
pub struct Stack {
    total_size: usize,
    guard_size: usize,
    bottom: usize,
}

impl View for Stack {
    type V = StackView;

    closed spec fn view(&self) -> StackView {
        StackView { total_size: self.total_size, guard_size: self.guard_size, bottom: self.bottom }
    }
}

/// A source of stacks that were used before.
pub struct StackPool {
    total_size: usize,
}

impl View for StackPool {
    type V = usize;

    /// The total size of the stacks the pool hands out.
    closed spec fn view(&self) -> usize {
        self.total_size
    }
}

impl StackPool {
    /// A pool of stacks of `total_size` bytes.
    pub fn new(total_size: usize) -> (p: Self)
        ensures
            p@ == total_size,
    {
        StackPool { total_size }
    }

    /// The total size of the stacks the pool hands out.
    pub fn total_size(&self) -> (s: usize)
        ensures
            s == self@,
    {
        self.total_size
    }

    /// A stack of `total_size` bytes kept for reuse, by the address of its
    /// bottom; the pool keeps none, so there is never one.
    pub fn get(&mut self, total_size: usize) -> (r: Option<usize>)
        ensures
            r is None,
            final(self)@ == old(self)@,
    {
        None
    }
}

impl Stack {
    /// The machine's page size (its allocation granularity).
    pub fn page_size() -> (p: usize)
        ensures
            p > 0,
    {
        granularity()
    }

    /// The size of the guard page below a stack: one page.
    pub fn guard_size() -> (g: usize)
        ensures
            g > 0,
    {
        granularity()
    }

    /// The size of this stack's guard.
    pub fn stack_guard_size(&self) -> (g: usize)
        ensures
            g == self@.guard_size,
    {
        self.guard_size
    }

    /// The total size, guard included.
    pub fn total_size(&self) -> (s: usize)
        ensures
            s == self@.total_size,
    {
        self.total_size
    }

    /// The usable size: the total size less the guard.
    pub fn size_for(&self, guard_size: usize) -> (s: usize)
        ensures
            s == self@.total_size.wrapping_sub(guard_size),
    {
        self.total_size.wrapping_sub(guard_size)
    }

    /// The usable size: the total size less the guard.
    pub fn size(&self) -> (s: usize)
        ensures
            s == self@.total_size.wrapping_sub(self@.guard_size),
    {
        self.size_for(self.guard_size)
    }

    /// The address of the usable bottom, `0` while no memory is attached.
    pub fn bottom(&self) -> (b: usize)
        ensures
            b == self@.bottom,
    {
        self.bottom
    }

    /// The address just past the usable part, for a guard of `guard_size`.
    pub fn top_for(&self, guard_size: usize) -> (t: usize)
        ensures
            t == self@.bottom.wrapping_add(self@.total_size.wrapping_sub(guard_size)),
    {
        self.bottom.wrapping_add(self.size_for(guard_size))
    }

    /// Announces the stack to Valgrind, which this library leaves to test
    /// builds: nothing changes.
    pub fn register(&mut self)
        ensures
            final(self)@ == old(self)@,
    {
    }

    /// Withdraws the announcement of `register`: nothing changes either.
    pub fn deregister(&mut self)
        ensures
            final(self)@ == old(self)@,
    {
    }

    /// Whether Valgrind knows the stack: never, as it is not announced.
    pub fn is_registered(&self) -> (b: bool)
        ensures
            !b,
    {
        false
    }

    /// Attaches memory: a stack kept by `pool` if it has one, else the
    /// fresh mapping `mapped` (the address of its usable bottom), if the
    /// system gave one. Tells whether the stack now has memory.
    pub fn allocate(&mut self, pool: &mut StackPool, mapped: Option<usize>) -> (ok: bool)
        requires
            old(self)@.bottom == 0,
        ensures
            final(pool)@ == old(pool)@,
            final(self)@.total_size == old(self)@.total_size,
            final(self)@.guard_size == old(self)@.guard_size,
            ok == (mapped is Some),
            final(self)@.bottom == match mapped {
                Some(b) => b,
                None => 0,
            },
    {
        match pool.get(self.total_size) {
            Some(base) => {
                self.bottom = base;
                true
            },
            None => match mapped {
                Some(base) => {
                    self.bottom = base;
                    true
                },
                None => false,
            },
        }
    }

    /// The addresses of the guard page for a guard of `guard_size`: empty
    /// while no memory is attached; else just below the bottom when stacks
    /// grow downward, just past the usable part otherwise.
    pub fn guard_range_for(&self, guard_size: usize) -> (r: Range<usize>)
        ensures
            self@.bottom == 0 ==> r.start == 0 && r.end == 0,
            self@.bottom != 0 ==> r.start == self@.bottom.wrapping_sub(guard_size),
            self@.bottom != 0 ==> r.end == r.start.wrapping_add(guard_size),
    {
        if self.bottom == 0 {
            Range { start: 0, end: 0 }
        } else {
            let guard = if stack_growth_downward() {
                self.bottom.wrapping_sub(guard_size)
            } else {
                self.top_for(guard_size)
            };
            Range { start: guard, end: guard.wrapping_add(guard_size) }
        }
    }

    /// The addresses of the guard page; empty while no memory is attached.
    pub fn guard_range(&self) -> (r: Range<usize>)
        ensures
            self@.bottom == 0 ==> r.start == 0 && r.end == 0,
            self@.bottom != 0 ==> r.start == self@.bottom.wrapping_sub(self@.guard_size),
            self@.bottom != 0 ==> r.end == r.start.wrapping_add(self@.guard_size),
    {
        self.guard_range_for(self.guard_size)
    }

    /// The stack of the thread's own context: empty, with no memory and no
    /// guard.
    pub fn root_stack() -> (s: Self)
        ensures
            s@.total_size == 0,
            s@.guard_size == 0,
            s@.bottom == 0,
    {
        Stack { total_size: 0, guard_size: 0, bottom: 0 }
    }

    /// A stack, without memory yet, sized for `size_hint` bytes with a guard
    /// of `guard_size` bytes and pages of `page_size` bytes. When pages are
    /// a power of two and nothing wraps, its total size is aligned to the
    /// page and is the least such size that holds the hint (at least one
    /// byte) and the guard.
    pub fn with_size_for(size_hint: usize, guard_size: usize, page_size: usize) -> (s: Self)
        ensures
            s@.bottom == 0,
            s@.guard_size == guard_size,
            s@.total_size == spec_total_size_for(size_hint, guard_size, page_size),
            is_power_of_two(page_size) && size_hint + guard_size + 1 + page_size <= usize::MAX
                ==> ({
                let need = size_hint + guard_size + if size_hint == 0 {
                    1int
                } else {
                    0int
                };
                &&& s@.total_size & ((page_size - 1) as usize) == 0
                &&& need <= s@.total_size < need + page_size
            }),
    {
        let page_align_mask = page_size.wrapping_sub(1);
        let extra: usize = if size_hint == 0 {
            1
        } else {
            0
        };
        let need = size_hint.wrapping_add(guard_size).wrapping_add(extra);
        let total = need.wrapping_add(page_align_mask) & !page_align_mask;
        proof {
            if is_power_of_two(page_size) && size_hint + guard_size + 1 + page_size <= usize::MAX {
                assert(need == size_hint + guard_size + extra);
                assert(page_align_mask == page_size - 1);
                lemma_round_up(need, page_size, page_align_mask, total);
            }
        }
        Stack { total_size: total, guard_size, bottom: 0 }
    }

    /// A stack, without memory yet, sized for `size_hint` bytes plus a guard
    /// page, rounded up to the page. The page size is read once, kept as
    /// the stack's guard size, and used for both.
    pub fn with_size(size_hint: usize) -> (s: Self)
        ensures
            s@.bottom == 0,
            s@.guard_size > 0,
            s@.total_size == spec_total_size_for(size_hint, s@.guard_size, s@.guard_size),
    {
        let page_size = Self::page_size();
        Self::with_size_for(size_hint, page_size, page_size)
    }

    /// A stack of the default total size, without memory yet: sized for the
    /// default total less one guard page, with one page read for both and
    /// kept as the guard size. When the page divides the default total size
    /// and is smaller, that is the stack's total size.
    pub fn new() -> (s: Self)
        ensures
            s@.bottom == 0,
            s@.guard_size > 0,
            s@.total_size == spec_total_size_for(
                DEFAULT_TOTAL_SIZE.wrapping_sub(s@.guard_size),
                s@.guard_size,
                s@.guard_size,
            ),
            default_page_ok(s@.guard_size) ==> s@.total_size == DEFAULT_TOTAL_SIZE,
    {
        let page_size = Self::page_size();
        let s = Self::with_size_for(DEFAULT_TOTAL_SIZE.wrapping_sub(page_size), page_size, page_size);
        proof {
            if default_page_ok(page_size) {
                law_default_size_round_trip(page_size);
            }
        }
        s
    }
}

/// Whether stacks grow toward lower addresses; they do on every machine
/// this library is built for.
pub fn stack_growth_downward() -> (b: bool)
    ensures
        b,
{
    true
}

/// Where a stack lies in a fresh mapping that starts at `mapping` and spans
/// `total_size` bytes, with a guard of `guard_size` bytes: returns the
/// guard's address and the usable bottom. The guard takes the low end of
/// the mapping when stacks grow downward, the high end otherwise.
pub fn stack_bounds(mapping: usize, total_size: usize, guard_size: usize, downward: bool) -> (r: (
    usize,
    usize,
))
    requires
        mapping + total_size <= usize::MAX,
        guard_size <= total_size,
    ensures
        downward ==> r == (mapping, (mapping + guard_size) as usize),
        !downward ==> r == ((mapping + total_size - guard_size) as usize, mapping),
{
    if downward {
        (mapping, mapping + guard_size)
    } else {
        (mapping + (total_size - guard_size), mapping)
    }
}

/// The start of the mapping that holds a stack whose usable bottom is at
/// `bottom`, with a guard of `guard_size` bytes.
pub fn stack_mapping(bottom: usize, guard_size: usize, downward: bool) -> (m: usize)
    requires
        downward ==> guard_size <= bottom,
    ensures
        m == if downward {
            (bottom - guard_size) as usize
        } else {
            bottom
        },
{
    if downward {
        bottom - guard_size
    } else {
        bottom
    }
}

/// Releasing a stack gives back the mapping it was placed in.
pub proof fn law_mapping_round_trip(
    mapping: usize,
    total_size: usize,
    guard_size: usize,
    downward: bool,
)
    requires
        mapping + total_size <= usize::MAX,
        guard_size <= total_size,
    ensures
        ({
            let bottom = if downward {
                mapping + guard_size
            } else {
                mapping as int
            };
            (if downward {
                bottom - guard_size
            } else {
                bottom
            }) == mapping
        }),
{
}

} // verus!
