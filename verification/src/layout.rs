//! The shapes in which a text layout engine reports its work: measures that
//! may be finite or unbounded, the target render area, and the rows a piece
//! of content was wrapped into.
use vstd::prelude::*;

verus! {

/// A measure in the layout engine's units: either a finite coordinate or the
/// unbounded sentinel that switches the constraint off. The engine's units
/// may be any order-preserving integer encoding of its coordinates; this
/// library only ever compares them.
#[derive(Clone, Copy, Debug, PartialEq, Eq, Structural)]
pub enum Extent {
    Finite(u64),
    Unbounded,
}

/// The maximum render area: a width that drives wrapping and a height that
/// bounds how many rows are shown. Either may be unbounded.
#[derive(Clone, Copy, Debug, PartialEq, Eq, Structural)]
pub struct BoundingBox {
    pub width: Extent,
    pub height: Extent,
}

/// One visual row of laid-out text: the span of the original content it
/// covers, as offsets into the content's character sequence, and the row's
/// top and bottom edges in the engine's units. A row without glyphs carries
/// an empty span.
#[derive(Clone, Copy, Debug, PartialEq, Eq, Structural)]
pub struct LaidOutLine {
    pub start: usize,
    pub end: usize,
    pub top: u64,
    pub bottom: u64,
}

/// A full, height-unconstrained layout of one piece of content: the wrapped
/// rows in top-to-bottom order, and the total measured height of the block.
#[derive(Debug)]
pub struct Layout {
    pub lines: Vec<LaidOutLine>,
    pub height: u64,
}

/// The row's span lies within content of length `n`.
pub open spec fn line_wf(line: LaidOutLine, n: nat) -> bool {
    line.start <= line.end && line.end <= n
}

/// Every row's span lies within content of length `n`.
pub open spec fn lines_wf(lines: Seq<LaidOutLine>, n: nat) -> bool {
    forall|i: int| 0 <= i < lines.len() ==> line_wf(#[trigger] lines[i], n)
}

impl Layout {
    /// The layout is valid for content of length `n`.
    pub open spec fn wf(self, n: nat) -> bool {
        lines_wf(self.lines@, n)
    }
}

} // verus!
