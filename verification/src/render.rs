//! The picture of a game: the rectangles to fill, in the order in which
//! they are to be painted. Painting them is left to the caller.

use crate::grid::{cell_index, Cell, Grid};
use crate::piece::{lemma_cells_cover, Piece};
use crate::shapes::{colour_of, Colour, CELLS, COLUMNS, ROWS};
use vstd::prelude::*;

verus! {

/// The side of one tile, in pixels.
pub const BLOCK_SIZE: usize = 30;

/// One rectangle to fill: its top-left corner, its size and its colour.
#[derive(Clone, Copy, Debug, PartialEq, Eq, Structural)]
pub struct Fill {
    pub x: i32,
    pub y: i32,
    pub width: u32,
    pub height: u32,
    pub colour: Colour,
}

/// The frame of the tile whose top-left corner is (`x`, `y`): the whole
/// tile in grey.
pub open spec fn frame(x: int, y: int) -> Fill {
    Fill {
        x: x as i32,
        y: y as i32,
        width: BLOCK_SIZE as u32,
        height: BLOCK_SIZE as u32,
        colour: Colour::grey(),
    }
}

/// The inside of a taken tile whose top-left corner is (`x`, `y`): the
/// tile less a border of one pixel, in `colour`.
pub open spec fn inlay(x: int, y: int, colour: Colour) -> Fill {
    Fill {
        x: (x + 1) as i32,
        y: (y + 1) as i32,
        width: (BLOCK_SIZE - 2) as u32,
        height: (BLOCK_SIZE - 2) as u32,
        colour,
    }
}

/// The inside of an empty tile whose top-left corner is (`x`, `y`): the
/// whole tile in black.
pub open spec fn blank(x: int, y: int) -> Fill {
    Fill {
        x: x as i32,
        y: y as i32,
        width: BLOCK_SIZE as u32,
        height: BLOCK_SIZE as u32,
        colour: Colour::black(),
    }
}

impl Piece {
    /// Whether the piece can be drawn with the playfield's corner at
    /// (`sx`, `sy`): every corner of its tiles fits in an `i32`, wherever
    /// in its square the filled sub-cells lie.
    pub open spec fn drawable(&self, sx: int, sy: int) -> bool {
        &&& sx <= i32::MAX
        &&& i32::MIN <= BLOCK_SIZE * self.column
        &&& sx + BLOCK_SIZE * (self.column + 3) < i32::MAX
        &&& sy + BLOCK_SIZE * (self.row + 3) < i32::MAX
    }

    /// The picture of the piece with the playfield's corner at (`sx`,
    /// `sy`): for each filled sub-cell in turn, the frame of its tile and
    /// then its inlay in the kind's colour.
    pub open spec fn picture(&self, sx: int, sy: int) -> Seq<Fill> {
        Seq::new(
            2 * self.cells().len(),
            |i: int|
                {
                    let x = sx + (self.column + self.cells()[i / 2].0) * BLOCK_SIZE;
                    let y = sy + (self.row + self.cells()[i / 2].1) * BLOCK_SIZE;
                    if i % 2 == 0 {
                        frame(x, y)
                    } else {
                        inlay(x, y, colour_of(self.shapes.kind))
                    }
                },
        )
    }

    /// The rectangles that show the piece, with the playfield's corner at
    /// (`sx`, `sy`).
    pub fn draw(&self, sx: usize, sy: usize) -> (fills: Vec<Fill>)
        requires
            self.wf(),
            self.drawable(sx as int, sy as int),
        ensures
            fills@ == self.picture(sx as int, sy as int),
    {
        let cells = self.current_occupied_cells();
        let colour = self.shapes.colour();
        let size: u32 = BLOCK_SIZE as u32;
        let mut fills: Vec<Fill> = Vec::new();
        proof {
            lemma_cells_cover(*self);
        }
        let mut i: usize = 0;
        while i < cells.len()
            invariant
                self.wf(),
                self.drawable(sx as int, sy as int),
                cells@ == self.cells(),
                colour == colour_of(self.shapes.kind),
                size == BLOCK_SIZE,
                i <= cells.len(),
                fills@.len() == 2 * i,
                forall|j: int|
                    0 <= j < self.cells().len() ==> (#[trigger] self.cells()[j]).0 <= 3
                        && self.cells()[j].1 <= 3,
                forall|k: int|
                    0 <= k < 2 * i ==> #[trigger] fills@[k] == self.picture(
                        sx as int,
                        sy as int,
                    )[k],
            decreases cells.len() - i,
        {
            let (col_index, row_index) = cells[i];
            let x: i32 = sx as i32 + ((self.column + col_index as i32) * BLOCK_SIZE as i32);
            let y: i32 = (sy + ((self.row + row_index) * BLOCK_SIZE)) as i32;
            fills.push(Fill { x, y, width: size, height: size, colour: Colour::grey() });
            fills.push(Fill { x: x + 1, y: y + 1, width: size - 2, height: size - 2, colour });
            i += 1;
        }
        fills
    }
}

impl Grid {
    /// Whether the playfield can be drawn with its corner at (`sx`,
    /// `sy`): every corner of its tiles fits in an `i32`.
    pub open spec fn drawable(sx: int, sy: int) -> bool {
        &&& sx + BLOCK_SIZE * COLUMNS <= i32::MAX
        &&& sy + BLOCK_SIZE * ROWS <= i32::MAX
    }

    /// The picture of the playfield with its corner at (`sx`, `sy`): for
    /// each cell in turn, row by row, the frame of its tile and then
    /// what fills it: the inlay in the cell's colour if the cell is taken,
    /// the black blank if it is empty.
    pub open spec fn picture(&self, sx: int, sy: int) -> Seq<Fill> {
        Seq::new(
            2 * self@.len(),
            |i: int|
                {
                    let x = sx + ((i / 2) % (COLUMNS as int)) * BLOCK_SIZE;
                    let y = sy + ((i / 2) / (COLUMNS as int)) * BLOCK_SIZE;
                    if i % 2 == 0 {
                        frame(x, y)
                    } else {
                        match self@[i / 2] {
                            Cell::Occupied(colour) => inlay(x, y, colour),
                            Cell::Empty => blank(x, y),
                        }
                    }
                },
        )
    }

    /// The rectangles that show the playfield, with its corner at (`sx`,
    /// `sy`).
    pub fn draw(&self, sx: usize, sy: usize) -> (fills: Vec<Fill>)
        requires
            self.wf(),
            Grid::drawable(sx as int, sy as int),
        ensures
            fills@ == self.picture(sx as int, sy as int),
    {
        let size: u32 = BLOCK_SIZE as u32;
        let mut fills: Vec<Fill> = Vec::new();
        let mut i: usize = 0;
        while i < CELLS
            invariant
                self.wf(),
                Grid::drawable(sx as int, sy as int),
                size == BLOCK_SIZE,
                i <= CELLS,
                fills@.len() == 2 * i,
                forall|k: int|
                    0 <= k < 2 * i ==> #[trigger] fills@[k] == self.picture(
                        sx as int,
                        sy as int,
                    )[k],
            decreases CELLS - i,
        {
            let column: usize = i % COLUMNS;
            let row: usize = i / COLUMNS;
            let x: i32 = (sx + column * BLOCK_SIZE) as i32;
            let y: i32 = (sy + row * BLOCK_SIZE) as i32;
            fills.push(Fill { x, y, width: size, height: size, colour: Colour::grey() });
            match self.get(column, row) {
                Cell::Occupied(colour) => {
                    fills.push(
                        Fill { x: x + 1, y: y + 1, width: size - 2, height: size - 2, colour },
                    );
                },
                Cell::Empty => {
                    fills.push(Fill { x, y, width: size, height: size, colour: Colour::black() });
                },
            }
            i += 1;
        }
        fills
    }
}

} // verus!
