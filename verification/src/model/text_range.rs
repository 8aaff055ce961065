//! Half-open ranges of character offsets.

use vstd::prelude::*;

verus! {

/// A half-open interval `[start_offset, end_offset)` of character offsets.
#[derive(Debug, Clone, Copy, PartialEq, Eq, Structural)]
pub struct TextRange {
    pub start_offset: usize,
    pub end_offset: usize,
}

impl TextRange {
    /// The range between two offsets given in either order.
    pub open spec fn spanning(a: usize, b: usize) -> TextRange {
        if a <= b {
            TextRange { start_offset: a, end_offset: b }
        } else {
            TextRange { start_offset: b, end_offset: a }
        }
    }

    /// The start does not lie behind the end.
    pub open spec fn is_ordered(&self) -> bool {
        self.start_offset <= self.end_offset
    }

    /// The range covers no offset at all.
    pub open spec fn is_empty(&self) -> bool {
        self.start_offset >= self.end_offset
    }

    /// Whether `offset` lies inside the range.
    pub open spec fn covers(&self, offset: usize) -> bool {
        self.start_offset <= offset < self.end_offset
    }

    /// Builds the range between `start` and `end`, sorting the two so that
    /// the result is ordered whichever way round they are given.
    pub fn new(start: usize, end: usize) -> (r: Self)
        ensures
            r == Self::spanning(start, end),
            r.is_ordered(),
    {
        if start <= end {
            TextRange { start_offset: start, end_offset: end }
        } else {
            TextRange { start_offset: end, end_offset: start }
        }
    }

    /// Check if this range contains the given offset.
    pub fn contains(&self, offset: usize) -> (b: bool)
        ensures
            b == self.covers(offset),
    {
        offset >= self.start_offset && offset < self.end_offset
    }
}

/// A range built from two endpoints is ordered and does not depend on the
/// order in which the endpoints are given; it is empty exactly when the
/// endpoints coincide.
pub proof fn lemma_spanning_normalizes(a: usize, b: usize)
    ensures
        TextRange::spanning(a, b).is_ordered(),
        TextRange::spanning(a, b) == TextRange::spanning(b, a),
        TextRange::spanning(a, b).is_empty() <==> a == b,
        forall|offset: usize|
            TextRange::spanning(a, b).covers(offset) <==> (a <= offset < b || b <= offset < a),
{
}

} // verus!
