//! The size of the screen that the editor draws on.

use vstd::prelude::*;
use crate::editor::Position;

verus! {

/// The number of rows that the status bar and the message bar take up.
pub const BAR_ROWS: u16 = 2;

/// A screen area, in character cells.
#[derive(Clone, Copy, Debug, PartialEq, Eq, Structural)]
pub struct Size {
    pub width: u16,
    pub height: u16,
}

/// The terminal as the editor sees it: the area left for the text.
#[derive(Clone, Copy, Debug, PartialEq, Eq, Structural)]
pub struct Terminal {
    pub size: Size,
}

impl Terminal {
    /// The terminal whose screen has `columns` columns and `rows` rows: the
    /// text gets every column and all rows but the two of the bars.
    pub fn with_dimensions(columns: u16, rows: u16) -> (terminal: Self)
        ensures
            terminal.size.width == columns,
            terminal.size.height == if rows >= BAR_ROWS {
                rows - BAR_ROWS
            } else {
                0
            },
    {
        Terminal { size: Size { width: columns, height: rows.saturating_sub(BAR_ROWS) } }
    }

    /// The screen cell for a place on the screen: its column and its row,
    /// each held to the largest that a screen can have.
    pub fn cell_of(position: &Position) -> (cell: (u16, u16))
        ensures
            cell.0 == if position.x < u16::MAX {
                position.x
            } else {
                u16::MAX as usize
            },
            cell.1 == if position.y < u16::MAX {
                position.y
            } else {
                u16::MAX as usize
            },
    {
        let column: u16 = if position.x < u16::MAX as usize {
            position.x as u16
        } else {
            u16::MAX
        };
        let row: u16 = if position.y < u16::MAX as usize {
            position.y as u16
        } else {
            u16::MAX
        };
        (column, row)
    }

    pub fn size(&self) -> (size: &Size)
        ensures
            *size == self.size,
    {
        &self.size
    }
}

} // verus!
