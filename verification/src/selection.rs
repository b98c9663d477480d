//! What a pane has selected in a document.

use crate::graphics::Position;
use vstd::prelude::*;

verus! {

/// The primary selection of one pane in one document.
///
/// `anchor` and `head` are character offsets into the text. `cursor` is the
/// line and column of the primary cursor, kept up to date by whoever edits the
/// text or moves the selection.
#[derive(Clone, Copy, Debug, PartialEq, Eq, Structural, Hash)]
pub struct Selection {
    pub anchor: usize,
    pub head: usize,
    pub cursor: Position,
}

impl Selection {
    /// The point selection at the very start of a buffer.
    pub open spec fn spec_start() -> Selection {
        Selection { anchor: 0, head: 0, cursor: Position { row: 0, col: 0 } }
    }

    /// The point selection at the very start of a buffer.
    #[verifier::when_used_as_spec(spec_start)]
    pub fn start() -> (s: Selection)
        ensures
            s == Selection::spec_start(),
    {
        Selection { anchor: 0, head: 0, cursor: Position { row: 0, col: 0 } }
    }

    /// A selection of no width at character `head`, whose cursor is drawn at `cursor`.
    pub fn point(head: usize, cursor: Position) -> (s: Selection)
        ensures
            s == (Selection { anchor: head, head, cursor }),
    {
        Selection { anchor: head, head, cursor }
    }

    /// True if the selection covers no character.
    pub fn is_point(&self) -> (b: bool)
        ensures
            b == (self.anchor == self.head),
    {
        self.anchor == self.head
    }
}

} // verus!
