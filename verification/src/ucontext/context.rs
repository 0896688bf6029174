//! Coroutine contexts: the state kept for each one besides its registers.
use crate::ucontext::stack::{spec_total_size_for, Stack, StackPool, StackView, DEFAULT_TOTAL_SIZE};
use vstd::prelude::*;

verus! {

/// The context may only run on the thread that made it.
pub const FLAG_LOCAL: usize = 1;
/// The context has a stack and an entry frame.
pub const FLAG_STARTED: usize = 2;
/// The context's function returned.
pub const FLAG_DONE: usize = 4;

/// What a context holds besides its function: its flags, its saved stack
/// pointer (an address, `0` before it starts) and its stack.
pub struct InnerView {
    pub flags: usize,
    pub stack_pointer: usize,
    pub stack: StackView,
}

/// The part of a context that does not depend on its function.
pub struct InnerErazed {
    flags: usize,
    stack_pointer: usize,
    stack: Stack,
}

impl View for InnerErazed {
    type V = InnerView;

    closed spec fn view(&self) -> InnerView {
        InnerView { flags: self.flags, stack_pointer: self.stack_pointer, stack: self.stack@ }
    }
}

impl InnerErazed {
    /// A context with `flags` that will run on a stack sized for
    /// `size_hint` bytes; it has no memory yet and is not started.
    pub fn make(flags: usize, size_hint: usize) -> (c: Self)
        ensures
            c@.flags == flags,
            c@.stack_pointer == 0,
            c@.stack.bottom == 0,
            c@.stack.guard_size > 0,
            c@.stack.total_size == spec_total_size_for(size_hint, c@.stack.guard_size, c@.stack.guard_size),
    {
        InnerErazed { flags, stack_pointer: 0, stack: Stack::with_size(size_hint) }
    }

    /// The context of the running thread, whose stack pointer is
    /// `stack_pointer`: local, started, on the thread's own stack.
    pub fn get(stack_pointer: usize) -> (c: Self)
        ensures
            c@.flags == FLAG_LOCAL | FLAG_STARTED,
            c@.stack_pointer == stack_pointer,
            c@.stack.total_size == 0,
            c@.stack.guard_size == 0,
            c@.stack.bottom == 0,
    {
        InnerErazed { flags: FLAG_LOCAL | FLAG_STARTED, stack_pointer, stack: Stack::root_stack() }
    }

    /// Gives the context its stack: a kept one from `pool` or the fresh
    /// mapping `mapped`; then the context starts at the top of the usable
    /// part, for a guard of `guard_size` bytes. Tells whether it could.
    pub fn init_with(
        &mut self,
        pool: &mut StackPool,
        mapped: Option<usize>,
        guard_size: usize,
    ) -> (ok: bool)
        requires
            old(self)@.flags & FLAG_STARTED == 0,
            old(self)@.stack.bottom == 0,
        ensures
            ok == (mapped is Some),
            final(pool)@ == old(pool)@,
            final(self)@.stack.total_size == old(self)@.stack.total_size,
            !ok ==> final(self)@ == old(self)@,
            ok ==> final(self)@ == (InnerView {
                flags: old(self)@.flags | FLAG_STARTED,
                stack_pointer: mapped->0.wrapping_add(
                    old(self)@.stack.total_size.wrapping_sub(guard_size),
                ),
                stack: StackView { bottom: mapped->0, ..old(self)@.stack },
            }),
    {
        if !self.stack.allocate(pool, mapped) {
            return false;
        }
        self.stack_pointer = self.stack.top_for(guard_size);
        self.flags = self.flags | FLAG_STARTED;
        true
    }

    /// Whether the context may only run on the thread that made it.
    pub fn is_local(&self) -> (b: bool)
        ensures
            b == (self@.flags & FLAG_LOCAL != 0),
    {
        (self.flags & FLAG_LOCAL) != 0
    }

    /// Whether the context has a stack and an entry frame.
    pub fn is_started(&self) -> (b: bool)
        ensures
            b == (self@.flags & FLAG_STARTED != 0),
    {
        (self.flags & FLAG_STARTED) != 0
    }

    /// Whether this is the context of a thread, on the thread's own stack.
    pub fn is_root_ctx(&self) -> (b: bool)
        ensures
            b == (self@.stack.total_size == 0),
    {
        self.stack.total_size() == 0
    }

    /// The saved stack pointer.
    pub fn stack_pointer(&self) -> (sp: usize)
        ensures
            sp == self@.stack_pointer,
    {
        self.stack_pointer
    }

    /// The stack.
    pub fn stack(&self) -> (s: &Stack)
        ensures
            s@ == self@.stack,
    {
        &self.stack
    }
}

/// A coroutine context and the function it runs.
pub struct UContext<F> {
    inner: InnerErazed,
    entry: Option<F>,
}

impl<F> UContext<F> {
    /// The context's state.
    pub closed spec fn inner(&self) -> InnerView {
        self.inner@
    }

    /// The function still to run, if any.
    pub closed spec fn entry(&self) -> Option<F> {
        self.entry
    }

    /// A context that runs `f` on the thread that made it, on a stack sized
    /// for `stack_size_hint` bytes.
    pub fn pinned(f: F, stack_size_hint: usize) -> (c: Option<Self>)
        ensures
            c is Some,
            c->0.inner().flags == FLAG_LOCAL,
            c->0.inner().stack_pointer == 0,
            c->0.inner().stack.bottom == 0,
            c->0.inner().stack.guard_size > 0,
            c->0.inner().stack.total_size == spec_total_size_for(
                stack_size_hint,
                c->0.inner().stack.guard_size,
                c->0.inner().stack.guard_size,
            ),
            c->0.entry() == Some(f),
    {
        Some(UContext { inner: InnerErazed::make(FLAG_LOCAL, stack_size_hint), entry: Some(f) })
    }

    /// A context that runs `f` and may move between threads, on a stack
    /// sized for `stack_size_hint` bytes.
    pub fn movable(f: F, stack_size_hint: usize) -> (c: Option<Self>)
        where F: Send,
        ensures
            c is Some,
            c->0.inner().flags == 0,
            c->0.inner().stack_pointer == 0,
            c->0.inner().stack.bottom == 0,
            c->0.inner().stack.guard_size > 0,
            c->0.inner().stack.total_size == spec_total_size_for(
                stack_size_hint,
                c->0.inner().stack.guard_size,
                c->0.inner().stack.guard_size,
            ),
            c->0.entry() == Some(f),
    {
        Some(UContext { inner: InnerErazed::make(0, stack_size_hint), entry: Some(f) })
    }

    /// The context of the running thread, whose stack pointer is
    /// `stack_pointer`; it runs no function of its own.
    pub fn get(stack_pointer: usize) -> (c: Option<Self>)
        ensures
            c is Some,
            c->0.inner().flags == FLAG_LOCAL | FLAG_STARTED,
            c->0.inner().stack_pointer == stack_pointer,
            c->0.inner().stack.total_size == 0,
            c->0.entry() is None,
    {
        Some(UContext { inner: InnerErazed::get(stack_pointer), entry: None })
    }

    /// The usable size of a default stack whose guard takes `guard_size`
    /// bytes: the default total size less the guard.
    pub fn default_size_for(guard_size: usize) -> (s: usize)
        ensures
            s == DEFAULT_TOTAL_SIZE.wrapping_sub(guard_size),
    {
        DEFAULT_TOTAL_SIZE.wrapping_sub(guard_size)
    }

    /// The usable size of a default stack: the default total size less one
    /// guard page, for the page size this machine reports (not zero).
    pub fn default_size() -> (s: usize)
        ensures
            exists|g: usize| g > 0 && s == DEFAULT_TOTAL_SIZE.wrapping_sub(g),
    {
        Self::default_size_for(Stack::guard_size())
    }

    /// Starts the context on the fresh mapping `mapped` (the usable bottom
    /// of a stack of its total size), for a guard of `guard_size` bytes.
    /// Tells whether it could; it cannot without memory.
    pub fn init_with(&mut self, mapped: Option<usize>, guard_size: usize) -> (ok: bool)
        requires
            old(self).inner().flags & FLAG_STARTED == 0,
            old(self).inner().stack.bottom == 0,
        ensures
            ok == (mapped is Some),
            final(self).entry() == old(self).entry(),
            !ok ==> final(self).inner() == old(self).inner(),
            ok ==> final(self).inner() == (InnerView {
                flags: old(self).inner().flags | FLAG_STARTED,
                stack_pointer: mapped->0.wrapping_add(
                    old(self).inner().stack.total_size.wrapping_sub(guard_size),
                ),
                stack: StackView { bottom: mapped->0, ..old(self).inner().stack },
            }),
    {
        let mut pool = StackPool::new(DEFAULT_TOTAL_SIZE);
        self.inner.init_with(&mut pool, mapped, guard_size)
    }

    /// Whether the context may only run on the thread that made it.
    pub fn is_local(&self) -> (b: bool)
        ensures
            b == (self.inner().flags & FLAG_LOCAL != 0),
    {
        self.inner.is_local()
    }

    /// Whether the context has a stack and an entry frame.
    pub fn is_started(&self) -> (b: bool)
        ensures
            b == (self.inner().flags & FLAG_STARTED != 0),
    {
        self.inner.is_started()
    }

    /// The total size of the context's stack, guard included.
    pub fn stack_total_size(&self) -> (s: usize)
        ensures
            s == self.inner().stack.total_size,
    {
        self.inner.stack().total_size()
    }

    /// The saved stack pointer.
    pub fn stack_pointer(&self) -> (sp: usize)
        ensures
            sp == self.inner().stack_pointer,
    {
        self.inner.stack_pointer()
    }

    /// Takes the function out, to run it.
    pub fn take_entry(&mut self) -> (f: Option<F>)
        ensures
            f == old(self).entry(),
            final(self).entry() is None,
            final(self).inner() == old(self).inner(),
    {
        self.entry.take()
    }
}

/// A hint that the current path is rarely taken.
pub fn cold() {
}

/// Returns `b`, hinting that it is usually `true`.
pub fn likely(b: bool) -> (r: bool)
    ensures
        r == b,
{
    if !b {
        cold()
    }
    b
}

/// Returns `b`, hinting that it is usually `false`.
pub fn unlikely(b: bool) -> (r: bool)
    ensures
        r == b,
{
    if b {
        cold()
    }
    b
}

} // verus!
