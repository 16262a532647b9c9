//! Byte spans into a source buffer.

use vstd::prelude::*;

verus! {

/// A half-open byte range `[start, end)` into a source buffer.
#[derive(Clone, Copy, Debug, PartialEq, Eq, Structural, Hash)]
pub struct Span {
    pub start: usize,
    pub end: usize,
}

impl Span {
    /// Builds the span `[start, end)`.
    pub fn new(start: usize, end: usize) -> (s: Span)
        ensures
            s == (Span { start, end }),
    {
        Span { start, end }
    }
}

} // verus!
