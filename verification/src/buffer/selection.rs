//! Selections in Unicode scalar-value offsets.

use vstd::prelude::*;

verus! {

/// A Unicode scalar-value offset into a buffer. This is not a byte offset or
/// a terminal display column.
#[derive(Debug, Clone, Copy, Default, PartialEq, Eq, Structural)]
pub struct CharOffset(pub usize);

/// One selection. `anchor == head` represents a caret.
#[derive(Debug, Clone, Copy, Default, PartialEq, Eq, Structural)]
pub struct Selection {
    pub anchor: CharOffset,
    pub head: CharOffset,
}

impl Selection {
    /// Lower end of the selected range.
    pub open spec fn start(self) -> usize {
        if self.anchor.0 <= self.head.0 { self.anchor.0 } else { self.head.0 }
    }

    /// Upper end of the selected range.
    pub open spec fn end(self) -> usize {
        if self.anchor.0 <= self.head.0 { self.head.0 } else { self.anchor.0 }
    }

    /// A caret at `offset`.
    pub open spec fn caret_spec(offset: usize) -> Selection {
        Selection { anchor: CharOffset(offset), head: CharOffset(offset) }
    }

    pub fn caret(offset: CharOffset) -> (s: Self)
        ensures
            s.anchor == offset,
            s.head == offset,
    {
        Selection { anchor: offset, head: offset }
    }

    /// The selected range, whichever way the selection points.
    pub fn range(self) -> (r: std::ops::Range<usize>)
        ensures
            r.start == self.start(),
            r.end == self.end(),
    {
        if self.anchor.0 <= self.head.0 {
            self.anchor.0..self.head.0
        } else {
            self.head.0..self.anchor.0
        }
    }

    pub fn is_caret(self) -> (b: bool)
        ensures
            b == (self.anchor == self.head),
    {
        self.anchor.0 == self.head.0
    }
}

} // verus!
