//! Byte-offset spans in a template source.
use vstd::prelude::*;

verus! {

/// A byte range of a source file: `length` bytes starting at `start`.
#[derive(Clone, Copy, Debug, PartialEq, Eq, Hash)]
pub struct Span {
    pub start: u32,
    pub length: u32,
}

/// Addition that stops at `u32::MAX`.
pub open spec fn sat_add(a: u32, b: u32) -> u32 {
    if a + b > u32::MAX {
        u32::MAX
    } else {
        (a + b) as u32
    }
}

/// Subtraction that stops at zero.
pub open spec fn sat_sub(a: u32, b: u32) -> u32 {
    if a < b {
        0
    } else {
        (a - b) as u32
    }
}

impl Span {
    /// The end offset (exclusive) of the span, `start + length`, stopping at `u32::MAX`.
    pub open spec fn end_spec(&self) -> u32 {
        sat_add(self.start, self.length)
    }

    pub fn new(start: u32, length: u32) -> (s: Span)
        ensures
            s.start == start,
            s.length == length,
    {
        Span { start, length }
    }

    /// The span from `start` to `end` (exclusive); an `end` before `start` gives an
    /// empty span, and offsets above `u32::MAX` stop there.
    pub fn saturating_from_bounds_usize(start: usize, end: usize) -> (s: Span)
        ensures
            s.start == (if start > u32::MAX { u32::MAX as int } else { start as int }),
            s.length == (if end <= start { 0 } else if end - start > u32::MAX { u32::MAX as int } else { end - start }),
    {
        let s: u32 = if start > 0xffff_ffffusize {
            0xffff_ffffu32
        } else {
            start as u32
        };
        let len: u32 = if end <= start {
            0
        } else if end - start > 0xffff_ffffusize {
            0xffff_ffffu32
        } else {
            (end - start) as u32
        };
        Span { start: s, length: len }
    }

    pub fn start(&self) -> (r: u32)
        ensures
            r == self.start,
    {
        self.start
    }

    pub fn length(&self) -> (r: u32)
        ensures
            r == self.length,
    {
        self.length
    }

    #[verifier::when_used_as_spec(end_spec)]
    pub fn end(&self) -> (r: u32)
        ensures
            r == self.end_spec(),
    {
        self.start.saturating_add(self.length)
    }

    /// Grows the span by `left` bytes before it and `right` bytes after it.
    pub fn expand(&self, left: u32, right: u32) -> (s: Span)
        ensures
            s.start == sat_sub(self.start, left),
            s.length == sat_add(sat_add(self.length, left), right),
    {
        Span {
            start: self.start.saturating_sub(left),
            length: self.length.saturating_add(left).saturating_add(right),
        }
    }

    /// Whether `offset` lies in `[start, end)`.
    pub fn contains(&self, offset: u32) -> (r: bool)
        ensures
            r == (self.start <= offset && offset < self.end_spec()),
    {
        self.start <= offset && offset < self.end()
    }
}

} // verus!
