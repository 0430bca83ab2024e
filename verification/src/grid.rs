//! The playfield: ten columns by twenty rows of cells, stored row by row
//! from the top.

use crate::piece::{lemma_cells_cover, Piece};
use crate::shapes::{colour_of, Colour, CELLS, COLUMNS, ROWS};
use vstd::prelude::*;

verus! {

/// One slot of the playfield.
#[derive(Clone, Copy, Debug, PartialEq, Eq, Structural)]
pub enum Cell {
    /// Nothing has been locked here since the cell was last cleared.
    Empty,
    /// A piece of the given colour has been locked here.
    Occupied(Colour),
}

/// Where the cell at (`column`, `row`) stands in the row-by-row sequence.
pub open spec fn cell_index(column: int, row: int) -> int {
    row * COLUMNS + column
}

/// Whether every column of `row` is occupied.
pub open spec fn row_full(cells: Seq<Cell>, row: int) -> bool {
    forall|column: int| 0 <= column < COLUMNS ==> #[trigger] cells[cell_index(column, row)] is Occupied
}

/// The cells after `row` has been deleted: the top row is empty, every row
/// from the second down to `row` holds what the row above it held, and the
/// rows below `row` are as they were.
pub open spec fn collapsed(cells: Seq<Cell>, row: int) -> Seq<Cell> {
    Seq::new(
        cells.len(),
        |i: int|
            if i < COLUMNS {
                Cell::Empty
            } else if i < (row + 1) * COLUMNS {
                cells[i - COLUMNS]
            } else {
                cells[i]
            },
    )
}

/// The cells after every row above `upto` that is full in `cells` has been
/// deleted, the topmost first.
pub open spec fn swept(cells: Seq<Cell>, upto: int) -> Seq<Cell>
    decreases upto,
{
    if upto <= 0 {
        cells
    } else if row_full(cells, upto - 1) {
        collapsed(swept(cells, upto - 1), upto - 1)
    } else {
        swept(cells, upto - 1)
    }
}

/// How many of the rows above `upto` are full.
pub open spec fn full_rows(cells: Seq<Cell>, upto: int) -> nat
    decreases upto,
{
    if upto <= 0 {
        0
    } else if row_full(cells, upto - 1) {
        full_rows(cells, upto - 1) + 1
    } else {
        full_rows(cells, upto - 1)
    }
}

/// The cells after `piece` has been written into them in `colour`: each
/// cell directly above one that the piece covers is occupied in that
/// colour, every other cell is as it was.
pub open spec fn stamped(cells: Seq<Cell>, piece: Piece, colour: Colour) -> Seq<Cell> {
    Seq::new(
        cells.len(),
        |i: int|
            if piece.covers(i % (COLUMNS as int), i / (COLUMNS as int) + 1) {
                Cell::Occupied(colour)
            } else {
                cells[i]
            },
    )
}

/// No more rows are full than there are rows.
pub proof fn lemma_full_rows_bound(cells: Seq<Cell>, upto: int)
    requires
        0 <= upto,
    ensures
        full_rows(cells, upto) <= upto,
    decreases upto,
{
    if upto > 0 {
        lemma_full_rows_bound(cells, upto - 1);
    }
}

/// Deleting rows at or above `upto` leaves the rows from `upto` down as
/// they were, so a row that was full before the sweep reached it is full
/// when it does.
pub proof fn lemma_swept_below(cells: Seq<Cell>, upto: int)
    requires
        0 <= upto <= ROWS,
        cells.len() == CELLS,
    ensures
        swept(cells, upto).len() == CELLS,
        forall|i: int| upto * COLUMNS <= i < CELLS ==> swept(cells, upto)[i] == cells[i],
        forall|row: int|
            upto <= row < ROWS ==> row_full(swept(cells, upto), row) == row_full(cells, row),
    decreases upto,
{
    if upto > 0 {
        lemma_swept_below(cells, upto - 1);
    }
    let after = swept(cells, upto);
    assert forall|row: int| upto <= row < ROWS implies row_full(after, row) == row_full(
        cells,
        row,
    ) by {
        assert forall|column: int| 0 <= column < COLUMNS implies after[cell_index(column, row)]
            == cells[cell_index(column, row)] by {}
    }
}

/// After the sweep no row above `upto` is full: a deleted row leaves an
/// empty one at the top, and the rows that move down were not full.
pub proof fn lemma_swept_none_full(cells: Seq<Cell>, upto: int)
    requires
        0 <= upto <= ROWS,
        cells.len() == CELLS,
    ensures
        forall|row: int| 0 <= row < upto ==> !row_full(swept(cells, upto), row),
    decreases upto,
{
    if upto > 0 {
        lemma_swept_none_full(cells, upto - 1);
        lemma_swept_below(cells, upto - 1);
        let before = swept(cells, upto - 1);
        let after = swept(cells, upto);
        assert forall|row: int| 0 <= row < upto implies !row_full(after, row) by {
            if row_full(cells, upto - 1) {
                if row == 0 {
                    assert(after[cell_index(0, 0)] == Cell::Empty);
                } else {
                    assert(!row_full(before, row - 1));
                    let column = choose|column: int|
                        0 <= column < COLUMNS && !(#[trigger] before[cell_index(column, row - 1)]
                            is Occupied);
                    assert(after[cell_index(column, row)] == before[cell_index(column, row - 1)]);
                }
            }
        }
    }
}

/// Between two rows there are no more full rows than rows.
pub proof fn lemma_full_rows_between(cells: Seq<Cell>, from: int, upto: int)
    requires
        0 <= from <= upto,
    ensures
        0 <= full_rows(cells, upto) - full_rows(cells, from) <= upto - from,
        from < upto && !row_full(cells, from) ==> full_rows(cells, upto) - full_rows(cells, from)
            < upto - from,
    decreases upto - from,
{
    if from < upto {
        lemma_full_rows_between(cells, from, upto - 1);
    }
}

/// What the sweep leaves: each row that is not full has sunk by the number
/// of full rows that lay below it, and the rows at the top, as many as
/// there were full rows, are empty.
pub proof fn lemma_swept_rows(cells: Seq<Cell>, upto: int)
    requires
        0 <= upto <= ROWS,
        cells.len() == CELLS,
    ensures
        forall|column: int, row: int|
            0 <= column < COLUMNS && 0 <= row < full_rows(cells, upto) ==> #[trigger] swept(
                cells,
                upto,
            )[cell_index(column, row)] == Cell::Empty,
        forall|column: int, row: int|
            0 <= column < COLUMNS && 0 <= row < upto && !row_full(cells, row) ==> swept(
                cells,
                upto,
            )[cell_index(column, row + full_rows(cells, upto) - full_rows(cells, row))]
                == #[trigger] cells[cell_index(column, row)],
    decreases upto,
{
    if upto > 0 {
        let last = upto - 1;
        lemma_swept_rows(cells, last);
        lemma_swept_below(cells, last);
        lemma_full_rows_bound(cells, last);
        let before = swept(cells, last);
        let after = swept(cells, upto);
        assert forall|column: int, row: int|
            0 <= column < COLUMNS && 0 <= row < full_rows(cells, upto) implies #[trigger] after[cell_index(
            column,
            row,
        )] == Cell::Empty by {
            if row_full(cells, last) && row > 0 {
                assert(before[cell_index(column, row - 1)] == Cell::Empty);
            }
        }
        assert forall|column: int, row: int|
            0 <= column < COLUMNS && 0 <= row < upto && !row_full(cells, row) implies after[cell_index(
            column,
            row + full_rows(cells, upto) - full_rows(cells, row),
        )] == #[trigger] cells[cell_index(column, row)] by {
            if row_full(cells, last) {
                lemma_full_rows_between(cells, row, last);
                let sunk = row + full_rows(cells, last) - full_rows(cells, row);
                assert(before[cell_index(column, sunk)] == cells[cell_index(column, row)]);
                assert(after[cell_index(column, sunk + 1)] == before[cell_index(column, sunk)]);
            } else if row == last {
                assert(before[cell_index(column, row)] == cells[cell_index(column, row)]);
            }
        }
    }
}

/// Where the `i`-th sub-cell that `piece` lists comes to rest: the index
/// of the cell directly above the one it covers.
pub open spec fn resting_index(piece: Piece, i: int) -> int {
    cell_index(piece.cell(i).0, piece.cell(i).1 - 1)
}

/// The playfield.
pub struct Grid {
    cells: Vec<Cell>,
}

impl Grid {
    /// The cells row by row from the top, each row from the left.
    pub closed spec fn view(&self) -> Seq<Cell> {
        self.cells@
    }

    /// The playfield has exactly its ten by twenty cells.
    pub open spec fn wf(&self) -> bool {
        self@.len() == CELLS
    }

    /// The cell at (`column`, `row`).
    pub open spec fn at(&self, column: int, row: int) -> Cell {
        self@[cell_index(column, row)]
    }

    /// An empty playfield.
    pub fn new() -> (grid: Grid)
        ensures
            grid.wf(),
            forall|i: int| 0 <= i < CELLS ==> grid@[i] == Cell::Empty,
    {
        let mut cells: Vec<Cell> = Vec::new();
        while cells.len() < CELLS
            invariant
                cells.len() <= CELLS,
                forall|i: int| 0 <= i < cells.len() ==> cells@[i] == Cell::Empty,
            decreases CELLS - cells.len(),
        {
            cells.push(Cell::Empty);
        }
        Grid { cells }
    }

    /// The cell at (`column`, `row`).
    pub fn get(&self, column: usize, row: usize) -> (cell: Cell)
        requires
            self.wf(),
            column < COLUMNS,
            row < ROWS,
        ensures
            cell == self.at(column as int, row as int),
    {
        self.cells[row * COLUMNS + column]
    }

    /// Whether nothing is locked at (`column`, `row`).
    pub fn is_empty(&self, column: usize, row: usize) -> (empty: bool)
        requires
            self.wf(),
            column < COLUMNS,
            row < ROWS,
        ensures
            empty == (self.at(column as int, row as int) is Empty),
    {
        match self.cells[row * COLUMNS + column] {
            Cell::Empty => true,
            Cell::Occupied(_) => false,
        }
    }

    /// Marks the cell at (`column`, `row`) occupied in `colour`.
    pub fn set(&mut self, column: usize, row: usize, colour: Colour)
        requires
            old(self).wf(),
            column < COLUMNS,
            row < ROWS,
        ensures
            final(self)@ == old(self)@.update(
                cell_index(column as int, row as int),
                Cell::Occupied(colour),
            ),
            final(self).wf(),
    {
        self.cells[row * COLUMNS + column] = Cell::Occupied(colour);
    }

    /// Whether every column of `row` is occupied.
    pub fn row_is_full(&self, row: usize) -> (full: bool)
        requires
            self.wf(),
            row < ROWS,
        ensures
            full == row_full(self@, row as int),
            full <==> forall|column: int|
                0 <= column < COLUMNS ==> #[trigger] self.at(column, row as int) is Occupied,
    {
        let mut column: usize = 0;
        while column < COLUMNS
            invariant
                self.wf(),
                row < ROWS,
                column <= COLUMNS,
                forall|c: int| 0 <= c < column ==> #[trigger] self@[cell_index(c, row as int)] is Occupied,
            decreases COLUMNS - column,
        {
            if self.is_empty(column, row) {
                return false;
            }
            column += 1;
        }
        true
    }

    /// Deletes `row`: every row from `row` up to the second takes the
    /// cells of the row above it, and the top row becomes empty. The rows
    /// below `row` stay.
    pub fn collapse(&mut self, row: usize)
        requires
            old(self).wf(),
            row < ROWS,
        ensures
            final(self).wf(),
            final(self)@ == collapsed(old(self)@, row as int),
            forall|column: int|
                0 <= column < COLUMNS ==> #[trigger] final(self).at(column, 0) == Cell::Empty,
            forall|column: int, r: int|
                0 <= column < COLUMNS && 1 <= r <= row ==> #[trigger] final(self).at(column, r)
                    == old(self).at(column, r - 1),
            forall|column: int, r: int|
                0 <= column < COLUMNS && row < r < ROWS ==> #[trigger] final(self).at(column, r)
                    == old(self).at(column, r),
    {
        let mut i: usize = (row + 1) * COLUMNS;
        while i > COLUMNS
            invariant
                self.cells.len() == CELLS,
                row < ROWS,
                COLUMNS <= i <= (row + 1) * COLUMNS,
                forall|k: int| 0 <= k < i ==> self.cells@[k] == old(self)@[k],
                forall|k: int|
                    i <= k < (row + 1) * COLUMNS ==> self.cells@[k] == old(self)@[k - COLUMNS],
                forall|k: int| (row + 1) * COLUMNS <= k < CELLS ==> self.cells@[k] == old(self)@[k],
            decreases i,
        {
            i -= 1;
            let above = self.cells[i - COLUMNS];
            self.cells[i] = above;
        }
        let mut j: usize = 0;
        while j < COLUMNS
            invariant
                self.cells.len() == CELLS,
                row < ROWS,
                j <= COLUMNS,
                forall|k: int| 0 <= k < j ==> self.cells@[k] == Cell::Empty,
                forall|k: int| j <= k < COLUMNS ==> self.cells@[k] == old(self)@[k],
                forall|k: int|
                    COLUMNS <= k < (row + 1) * COLUMNS ==> self.cells@[k] == old(self)@[k
                        - COLUMNS],
                forall|k: int| (row + 1) * COLUMNS <= k < CELLS ==> self.cells@[k] == old(self)@[k],
            decreases COLUMNS - j,
        {
            self.cells[j] = Cell::Empty;
            j += 1;
        }
    }

    /// Writes `piece` into the playfield in its kind's colour, one row
    /// above the cells it covers: the piece has moved into cells it may
    /// not keep and comes to rest where it was before.
    pub fn lock(&mut self, piece: &Piece)
        requires
            old(self).wf(),
            piece.wf(),
            piece.rests_in_field(),
        ensures
            final(self).wf(),
            final(self)@ == stamped(old(self)@, *piece, colour_of(piece.shapes.kind)),
            forall|column: int, row: int|
                0 <= column < COLUMNS && 0 <= row < ROWS && piece.covers(column, row + 1)
                    ==> #[trigger] final(self).at(column, row) == Cell::Occupied(
                    colour_of(piece.shapes.kind),
                ),
            forall|column: int, row: int|
                0 <= column < COLUMNS && 0 <= row < ROWS && !piece.covers(column, row + 1)
                    ==> #[trigger] final(self).at(column, row) == old(self).at(column, row),
            forall|i: int|
                0 <= i < CELLS && old(self)@[i] is Occupied ==> #[trigger] final(self)@[i]
                    is Occupied,
    {
        let cells = piece.current_occupied_cells();
        let colour = piece.shapes.colour();
        proof {
            lemma_cells_cover(*piece);
        }
        let mut i: usize = 0;
        while i < cells.len()
            invariant
                self.wf(),
                piece.wf(),
                piece.rests_in_field(),
                cells@ == piece.cells(),
                colour == colour_of(piece.shapes.kind),
                i <= cells.len(),
                forall|j: int|
                    0 <= j < piece.cells().len() ==> (#[trigger] piece.cells()[j]).0 <= 3
                        && piece.cells()[j].1 <= 3 && piece.covers(
                        piece.cell(j).0,
                        piece.cell(j).1,
                    ),
                forall|k: int|
                    0 <= k < CELLS ==> #[trigger] self@[k] == (if exists|j: int|
                        0 <= j < i && #[trigger] resting_index(*piece, j) == k {
                        Cell::Occupied(colour)
                    } else {
                        old(self)@[k]
                    }),
            decreases cells.len() - i,
        {
            let (c, r) = cells[i];
            assert(piece.cells()[i as int] == (c, r));
            let x: usize = (piece.column + c as i32) as usize;
            let y: usize = piece.row + r - 1;
            self.set(x, y, colour);
            assert(resting_index(*piece, i as int) == cell_index(x as int, y as int));
            i += 1;
        }
        proof {
            let goal = stamped(old(self)@, *piece, colour);
            assert forall|k: int| 0 <= k < CELLS implies self@[k] == goal[k] by {
                let column = k % (COLUMNS as int);
                let row = k / (COLUMNS as int);
                if piece.covers(column, row + 1) {
                    let j = choose|j: int|
                        0 <= j < piece.cells().len() && #[trigger] piece.cell(j) == (
                            column,
                            row + 1,
                        );
                    assert(resting_index(*piece, j) == k);
                } else if exists|j: int| 0 <= j < i && #[trigger] resting_index(*piece, j) == k {
                    let j = choose|j: int| 0 <= j < i && #[trigger] resting_index(*piece, j) == k;
                    assert(piece.covers(piece.cell(j).0, piece.cell(j).1));
                }
            }
            assert(self@ =~= goal);
            assert forall|column: int, row: int|
                0 <= column < COLUMNS && 0 <= row < ROWS implies cell_index(column, row) % (
                COLUMNS as int) == column && cell_index(column, row) / (COLUMNS as int) == row by {}
        }
    }

    /// Deletes every full row, the topmost first, and returns how many
    /// there were. Which rows are full is settled by the playfield as it
    /// is before the first deletion. Afterwards no row is full: each row
    /// that was not full has sunk by the number of full rows that lay
    /// below it, and as many rows at the top as were deleted are empty.
    pub fn clear_full_rows(&mut self) -> (cleared: u32)
        requires
            old(self).wf(),
        ensures
            final(self).wf(),
            final(self)@ == swept(old(self)@, ROWS as int),
            cleared == full_rows(old(self)@, ROWS as int),
            cleared <= ROWS,
            forall|row: int| 0 <= row < ROWS ==> !row_full(final(self)@, row),
            forall|column: int, row: int|
                0 <= column < COLUMNS && 0 <= row < cleared ==> #[trigger] final(self).at(
                    column,
                    row,
                ) == Cell::Empty,
            forall|column: int, row: int|
                0 <= column < COLUMNS && 0 <= row < ROWS && !row_full(old(self)@, row)
                    ==> final(self).at(
                    column,
                    row + full_rows(old(self)@, ROWS as int) - full_rows(old(self)@, row),
                ) == #[trigger] old(self).at(column, row),
    {
        let mut cleared: u32 = 0;
        let mut row: usize = 0;
        while row < ROWS
            invariant
                self.wf(),
                old(self).wf(),
                row <= ROWS,
                self@ == swept(old(self)@, row as int),
                cleared == full_rows(old(self)@, row as int),
                cleared <= row,
            decreases ROWS - row,
        {
            proof {
                lemma_swept_below(old(self)@, row as int);
            }
            if self.row_is_full(row) {
                self.collapse(row);
                cleared += 1;
            }
            row += 1;
        }
        proof {
            lemma_swept_none_full(old(self)@, ROWS as int);
            lemma_swept_rows(old(self)@, ROWS as int);
        }
        cleared
    }
}

} // verus!
