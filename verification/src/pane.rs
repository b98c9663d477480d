//! Panes: rectangles of the screen that each show one document.

use crate::document::DocumentId;
use crate::graphics::{Position, Rect};
use crate::selection::Selection;
use vstd::prelude::*;

verus! {

/// The handle of a pane, handed out by the tree that holds it.
#[derive(Clone, Copy, Debug, PartialEq, Eq, Structural, Hash, Default)]
pub struct ViewId(pub usize);

/// How a pane was attached to the pane before it.
#[derive(Clone, Copy, Debug, PartialEq, Eq, Structural, Hash)]
pub enum Layout {
    /// Below the pane before it.
    Horizontal,
    /// To the right of the pane before it.
    Vertical,
}

/// A pane and what it remembers.
#[derive(Debug)]
pub struct Pane {
    pub id: ViewId,
    pub doc: DocumentId,
    /// The line and column shown in the pane's upper left corner.
    pub offset: Position,
    /// The rectangle in which the pane draws text.
    pub area: Rect,
    pub layout: Layout,
    /// Where the pane has been, oldest first.
    pub jumps: Vec<(DocumentId, Selection)>,
    pub last_accessed_doc: Option<DocumentId>,
}

/// The mathematical value of a `Pane`.
#[verifier::ext_equal]
pub struct PaneModel {
    pub id: ViewId,
    pub doc: DocumentId,
    pub offset: Position,
    pub area: Rect,
    pub layout: Layout,
    pub jumps: Seq<(DocumentId, Selection)>,
    pub last_accessed_doc: Option<DocumentId>,
}

/// The margin kept between the cursor and either edge of a window of
/// `extent` cells: `scrolloff`, but never more than fits twice beside one cell.
pub open spec fn scroll_margin(extent: int, scrolloff: int) -> int {
    let e = if extent < 1 { 1 } else { extent };
    if scrolloff < (e - 1) / 2 { scrolloff } else { (e - 1) / 2 }
}

/// The first cell shown after a window of `extent` cells that starts at
/// `offset` has moved the least that brings `cursor` inside its margins.
pub open spec fn scrolled_offset(offset: int, extent: int, cursor: int, scrolloff: int) -> int {
    let e = if extent < 1 { 1 } else { extent };
    let m = scroll_margin(extent, scrolloff);
    if cursor < offset + m {
        if cursor < m { 0 } else { cursor - m }
    } else if cursor > offset + e - 1 - m {
        cursor - (e - 1 - m)
    } else {
        offset
    }
}

/// The offset that centres `line` in a window of `height` lines, as far as
/// the start of the buffer allows.
pub open spec fn centred_offset(line: int, height: int) -> int {
    if line < height / 2 { 0 } else { line - height / 2 }
}

/// Moves a window the least that brings `cursor` inside its margins.
pub fn scroll_axis(offset: usize, extent: u16, cursor: usize, scrolloff: usize) -> (r: usize)
    ensures
        r == scrolled_offset(offset as int, extent as int, cursor as int, scrolloff as int),
{
    let e: usize = if extent < 1 { 1 } else { extent as usize };
    let half: usize = (e - 1) / 2;
    let m: usize = if scrolloff < half { scrolloff } else { half };
    let k: usize = e - 1 - m;
    if cursor < m {
        0
    } else if cursor - m < offset {
        cursor - m
    } else if cursor >= k && cursor - k > offset {
        cursor - k
    } else {
        offset
    }
}

impl PaneModel {
    /// A pane for document `doc` that no tree has placed yet.
    pub open spec fn fresh(doc: DocumentId) -> PaneModel {
        PaneModel {
            id: ViewId(0),
            doc,
            offset: Position { row: 0, col: 0 },
            area: Rect { x: 0, y: 0, width: 0, height: 0 },
            layout: Layout::Vertical,
            jumps: Seq::empty(),
            last_accessed_doc: None,
        }
    }

    /// The pane after it has scrolled the least that shows `cursor` with
    /// `scrolloff` cells to spare.
    pub open spec fn scrolled(self, cursor: Position, scrolloff: usize) -> PaneModel {
        PaneModel {
            offset: Position {
                row: scrolled_offset(
                    self.offset.row as int,
                    self.area.height as int,
                    cursor.row as int,
                    scrolloff as int,
                ) as usize,
                col: scrolled_offset(
                    self.offset.col as int,
                    self.area.width as int,
                    cursor.col as int,
                    scrolloff as int,
                ) as usize,
            },
            ..self
        }
    }

    /// True if the pane draws the line that `cursor` is on.
    pub open spec fn shows_line(self, cursor: Position) -> bool {
        self.offset.row <= cursor.row < self.offset.row + self.area.height
    }

    /// Where on the screen `cursor` is drawn, if its line is shown.
    pub open spec fn screen_coords(self, cursor: Position) -> Option<Position> {
        if self.shows_line(cursor) {
            Some(
                Position {
                    row: (cursor.row - self.offset.row) as usize,
                    col: if cursor.col < self.offset.col {
                        0
                    } else {
                        (cursor.col - self.offset.col) as usize
                    },
                },
            )
        } else {
            None
        }
    }

    /// The pane showing `doc` from its first column, with `line` in the middle.
    pub open spec fn bound_to(self, doc: DocumentId, line: usize) -> PaneModel {
        PaneModel {
            doc,
            offset: Position {
                row: centred_offset(line as int, self.area.height as int) as usize,
                col: 0,
            },
            ..self
        }
    }

    /// The pane after noting that it leaves `doc` with `selection`.
    pub open spec fn with_jump(self, doc: DocumentId, selection: Selection) -> PaneModel {
        PaneModel {
            jumps: self.jumps.push((doc, selection)),
            last_accessed_doc: Some(doc),
            ..self
        }
    }
}

impl View for Pane {
    type V = PaneModel;

    open spec fn view(&self) -> PaneModel {
        PaneModel {
            id: self.id,
            doc: self.doc,
            offset: self.offset,
            area: self.area,
            layout: self.layout,
            jumps: self.jumps@,
            last_accessed_doc: self.last_accessed_doc,
        }
    }
}

impl Pane {
    /// A pane for document `doc` that no tree has placed yet.
    pub fn new(doc: DocumentId) -> (pane: Pane)
        ensures
            pane@ == PaneModel::fresh(doc),
    {
        Pane {
            id: ViewId(0),
            doc,
            offset: Position { row: 0, col: 0 },
            area: Rect { x: 0, y: 0, width: 0, height: 0 },
            layout: Layout::Vertical,
            jumps: Vec::new(),
            last_accessed_doc: None,
        }
    }

    /// The rectangle in which the pane draws text.
    pub fn inner_area(&self) -> (r: Rect)
        ensures
            r == self@.area,
    {
        self.area
    }

    /// Scrolls the least that shows `cursor` with `scrolloff` cells to spare.
    pub fn ensure_cursor_in_view(&mut self, cursor: Position, scrolloff: usize)
        ensures
            final(self)@ == old(self)@.scrolled(cursor, scrolloff),
    {
        let row = scroll_axis(self.offset.row, self.area.height, cursor.row, scrolloff);
        let col = scroll_axis(self.offset.col, self.area.width, cursor.col, scrolloff);
        self.offset = Position { row, col };
    }

    /// Where on the screen `cursor` is drawn: `None` if its line is not shown.
    pub fn screen_coords_at_pos(&self, cursor: Position) -> (r: Option<Position>)
        ensures
            r == self@.screen_coords(cursor),
    {
        if cursor.row < self.offset.row {
            return None;
        }
        let down: usize = cursor.row - self.offset.row;
        if down >= self.area.height as usize {
            return None;
        }
        let col: usize = if cursor.col < self.offset.col {
            0
        } else {
            cursor.col - self.offset.col
        };
        Some(Position { row: down, col })
    }

    /// Shows `doc` from its first column, with `line` in the middle.
    pub fn bind(&mut self, doc: DocumentId, line: usize)
        ensures
            final(self)@ == old(self)@.bound_to(doc, line),
    {
        let half: usize = (self.area.height / 2) as usize;
        self.doc = doc;
        self.offset = Position { row: if line < half { 0 } else { line - half }, col: 0 };
    }

    /// Notes that the pane leaves `doc` with `selection`.
    pub fn push_jump(&mut self, doc: DocumentId, selection: Selection)
        ensures
            final(self)@ == old(self)@.with_jump(doc, selection),
    {
        self.jumps.push((doc, selection));
        self.last_accessed_doc = Some(doc);
    }
}

} // verus!
