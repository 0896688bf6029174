//! Thread identifiers.
use vstd::prelude::*;

verus! {

/// A thread identifier; `usize::MAX` is the invalid one.
#[derive(Debug, Clone, Copy, PartialEq, Eq, Structural, Hash)]
pub struct ThreadId(usize);

impl View for ThreadId {
    type V = usize;

    /// The raw value.
    closed spec fn view(&self) -> usize {
        self.0
    }
}

impl ThreadId {
    /// The identifier of the raw value `id`.
    pub fn from_raw(id: usize) -> (t: Self)
        ensures
            t@ == id,
    {
        ThreadId(id)
    }

    /// The invalid identifier.
    pub fn invalid() -> (t: Self)
        ensures
            t@ == usize::MAX,
    {
        ThreadId(usize::MAX)
    }

    /// Tells whether this is the invalid identifier.
    pub fn is_invalid(&self) -> (b: bool)
        ensures
            b == (self@ == usize::MAX),
    {
        self.0 == usize::MAX
    }

    /// The raw value.
    pub fn as_usize(&self) -> (v: usize)
        ensures
            v == self@,
    {
        self.0
    }
}

} // verus!
