//! What the screen shows: views, panes, and selections of text.
use vstd::prelude::*;

verus! {

/// A position on the screen of a terminal, counted from zero.
#[derive(Debug, Clone, Copy, PartialEq, Eq, Structural)]
pub struct ScreenPos {
    pub row: u16,
    pub col: u16,
}

/// A selection of text, from where the mouse was pressed to where it is now.
#[derive(Debug, Clone, Copy, PartialEq, Eq, Structural)]
pub struct Selection {
    pub anchor: ScreenPos,
    pub end: ScreenPos,
}

/// Whether one position comes no later than another, row by row.
pub open spec fn pos_le(a: ScreenPos, b: ScreenPos) -> bool {
    a.row < b.row || (a.row == b.row && a.col <= b.col)
}

impl Selection {
    /// The earlier end of the selection.
    pub open spec fn first(self) -> ScreenPos {
        if pos_le(self.anchor, self.end) {
            self.anchor
        } else {
            self.end
        }
    }

    /// The later end of the selection.
    pub open spec fn last(self) -> ScreenPos {
        if pos_le(self.anchor, self.end) {
            self.end
        } else {
            self.anchor
        }
    }

    /// The selection from its earlier end to behind its later end.
    pub fn normalized(&self) -> (range: (ScreenPos, ScreenPos))
        requires
            self.last().col < u16::MAX,
        ensures
            range.0 == self.first(),
            range.1 == (ScreenPos {
                row: self.last().row,
                col: (self.last().col + 1) as u16,
            }),
    {
        let (start, end) = if self.anchor.row < self.end.row || (self.anchor.row == self.end.row
            && self.anchor.col <= self.end.col) {
            (self.anchor, self.end)
        } else {
            (self.end, self.anchor)
        };
        (start, ScreenPos { row: end.row, col: end.col + 1 })
    }
}

/// It does not matter in which direction a selection was drawn.
pub proof fn lemma_selection_has_no_direction(a: ScreenPos, b: ScreenPos)
    ensures
        (Selection { anchor: a, end: b }).first() == (Selection { anchor: b, end: a }).first(),
        (Selection { anchor: a, end: b }).last() == (Selection { anchor: b, end: a }).last(),
        pos_le((Selection { anchor: a, end: b }).first(), (Selection { anchor: a, end: b }).last()),
{
}

/// Which pane of the host browser has keyboard focus.
#[derive(Debug, Clone, Copy, PartialEq, Eq, Structural)]
pub enum Pane {
    Groups,
    Hosts,
}

/// What is shown: the host browser, a session, or a file browser.
#[derive(Debug, Clone, Copy, PartialEq, Eq, Structural)]
pub enum View {
    Hosts,
    Session(usize),
    FileTransfer(usize),
}

/// Whether the prefix key of tab commands was pressed.
#[derive(Debug, Clone, Copy, PartialEq, Eq, Structural)]
pub enum PrefixState {
    Inactive,
    Pending,
}

} // verus!
