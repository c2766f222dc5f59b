//! Where the blocks are drawn on the terminal.
//!
//! The terminal shows the most recent blocks side by side, below the row
//! [`BLOCKCHAIN_DISPLAY_ROW`]. This module decides where the next block goes
//! and when the row is wiped and started again; drawing is left to the
//! caller.

use vstd::prelude::*;

verus! {

/// How many blocks stand side by side before the row is wiped.
pub const RECENT_BLOCKS_TO_DISPLAY: u16 = 5;

/// The row above the first line of a block.
pub const BLOCKCHAIN_DISPLAY_ROW: u16 = 30;

/// The columns that a block takes.
pub const BLOCK_DISPLAY_WIDTH: u16 = 18;

/// The rows that are wiped when the row of blocks is started again.
pub const BLOCK_DISPLAY_ROWS: u16 = 9;

/// The most lines that a block can be drawn with: their rows must be rows of
/// the terminal.
pub const MAX_BLOCK_LINES: usize = 65505;

/// Where a block is drawn. If `wiped` is set, the [`BLOCK_DISPLAY_ROWS`] rows
/// from `first_row` on are cleared before, with the cursor in the column
/// `wiped_column`. Line `i` of the block is then printed at the column
/// `column` of the row `first_row + i`.
#[derive(Clone, Copy, Debug, PartialEq, Eq, Structural)]
pub struct Placement {
    pub wiped: bool,
    pub wiped_column: u16,
    pub column: u16,
    pub first_row: u16,
}

/// The state of the display: the column of the next block, and the number of
/// blocks in the row.
#[derive(Clone, Copy, Debug, PartialEq, Eq, Structural)]
pub struct DisplayView {
    pub column: u16,
    pub block_count: u16,
}

impl DisplayView {
    /// The row holds at most one block more than are shown side by side, and
    /// the next column lies behind them.
    pub open spec fn wf(self) -> bool {
        &&& self.block_count <= RECENT_BLOCKS_TO_DISPLAY + 1
        &&& self.column <= BLOCK_DISPLAY_WIDTH * self.block_count + 2
    }

    /// Whether the row is wiped before the next block.
    pub open spec fn full(self) -> bool {
        self.block_count > RECENT_BLOCKS_TO_DISPLAY
    }

    /// Where the next block is drawn.
    pub open spec fn placement(self) -> Placement {
        Placement {
            wiped: self.full(),
            wiped_column: self.column,
            column: if self.full() {
                2
            } else {
                self.column
            },
            first_row: (BLOCKCHAIN_DISPLAY_ROW + 1) as u16,
        }
    }

    /// The state after the next block is drawn.
    pub open spec fn after_block(self) -> DisplayView {
        DisplayView {
            column: (self.placement().column + BLOCK_DISPLAY_WIDTH) as u16,
            block_count: if self.full() {
                1
            } else {
                (self.block_count + 1) as u16
            },
        }
    }
}

/// The display of the chain.
#[derive(Debug)]
pub struct Display {
    blockchain_display_column: u16,
    block_count: u16,
}

impl View for Display {
    type V = DisplayView;

    closed spec fn view(&self) -> DisplayView {
        DisplayView { column: self.blockchain_display_column, block_count: self.block_count }
    }
}

impl Display {
    /// The display before any block is drawn: the genesis record stands in
    /// the row, and the next block goes to column 10.
    pub fn new() -> (display: Display)
        ensures
            display@ == (DisplayView { column: 10, block_count: 1 }),
            display@.wf(),
    {
        Display { blockchain_display_column: 10, block_count: 1 }
    }

    /// Decides where a block of `lines` lines is drawn, and counts it.
    pub fn new_block(&mut self, lines: &Vec<String>) -> (placement: Placement)
        requires
            old(self)@.wf(),
            lines@.len() <= MAX_BLOCK_LINES,
        ensures
            placement == old(self)@.placement(),
            final(self)@ == old(self)@.after_block(),
            final(self)@.wf(),
            placement.first_row + lines@.len() <= u16::MAX + 1,
    {
        let wiped = self.block_count > RECENT_BLOCKS_TO_DISPLAY;
        let wiped_column = self.blockchain_display_column;
        if wiped {
            self.block_count = 0;
            self.blockchain_display_column = 2;
        }
        let column = self.blockchain_display_column;
        self.block_count += 1;
        self.blockchain_display_column += BLOCK_DISPLAY_WIDTH;
        Placement { wiped, wiped_column, column, first_row: BLOCKCHAIN_DISPLAY_ROW + 1 }
    }
}

} // verus!
