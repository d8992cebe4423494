use vstd::prelude::*;

verus! {

/// A byte range `[lo, hi)` into the source text.
#[derive(Debug, Clone, Copy, PartialEq, Eq, Structural)]
pub struct Span {
    pub lo: usize,
    pub hi: usize,
}

impl Span {
    pub open spec fn wf(self) -> bool {
        self.lo <= self.hi
    }

    /// `inner` lies within `self`.
    pub open spec fn contains(self, inner: Span) -> bool {
        self.lo <= inner.lo && inner.hi <= self.hi
    }

    /// Returns the span with the same start and the given end.
    pub fn with_hi(self, hi: usize) -> (r: Span)
        ensures
            r.lo == self.lo,
            r.hi == hi,
    {
        Span { lo: self.lo, hi }
    }
}

} // verus!
