//! The moves of a piece across the playfield: which sideways moves the
//! walls and the locked cells allow, the move itself, and the test for
//! having landed.

use crate::grid::{cell_index, Cell, Grid};
use crate::piece::{lemma_anchor_bounds, lemma_cells_cover, Piece};
use crate::shapes::{COLUMNS, ROWS};
use vstd::prelude::*;

verus! {

/// What the player asks for during one step.
#[derive(Clone, Copy, Debug, PartialEq, Eq, Structural)]
pub struct Input {
    pub left: bool,
    pub right: bool,
    pub up: bool,
    pub down: bool,
}

/// Whether the cell at (`column`, `row`) lies in the playfield and is
/// empty.
pub open spec fn free(cells: Seq<Cell>, column: int, row: int) -> bool {
    &&& 0 <= column < COLUMNS
    &&& 0 <= row < ROWS
    &&& cells[cell_index(column, row)] is Empty
}

/// Whether a filled cell at (`column`, `row`) forbids a move to the left:
/// it stands at the left wall, or it stands clear of both walls and the
/// cell to its left is taken or lies outside the playfield.
pub open spec fn stops_left(cells: Seq<Cell>, column: int, row: int) -> bool {
    column <= 0 || (column < COLUMNS - 1 && !free(cells, column - 1, row))
}

/// Whether a filled cell at (`column`, `row`) forbids a move to the right:
/// it stands at the right wall, or it stands clear of both walls and the
/// cell to its right is taken or lies outside the playfield. A cell at the
/// left wall forbids nothing to the right.
pub open spec fn stops_right(cells: Seq<Cell>, column: int, row: int) -> bool {
    column > 0 && (column >= COLUMNS - 1 || !free(cells, column + 1, row))
}

/// Whether some cell that `piece` fills forbids a move to the left.
pub open spec fn blocked_left(cells: Seq<Cell>, piece: Piece) -> bool {
    exists|column: int, row: int| #[trigger]
        piece.covers(column, row) && stops_left(cells, column, row)
}

/// Whether some cell that `piece` fills forbids a move to the right.
pub open spec fn blocked_right(cells: Seq<Cell>, piece: Piece) -> bool {
    exists|column: int, row: int| #[trigger]
        piece.covers(column, row) && stops_right(cells, column, row)
}

/// The input with the sideways moves withdrawn that `piece` cannot make
/// where it stands. Nothing is ever granted that was not asked for.
pub open spec fn vetoed(cells: Seq<Cell>, piece: Piece, input: Input) -> Input {
    Input {
        left: input.left && !blocked_left(cells, piece),
        right: input.right && !blocked_right(cells, piece),
        ..input
    }
}

/// The piece after the sideways move that `input` asks for: one column to
/// the left if left is asked for, else one to the right if right is.
pub open spec fn shifted(piece: Piece, input: Input) -> Piece {
    if input.left {
        Piece { column: (piece.column - 1) as i32, ..piece }
    } else if input.right {
        Piece { column: (piece.column + 1) as i32, ..piece }
    } else {
        piece
    }
}

/// Whether `piece` has landed: one of the cells it fills is taken or lies
/// outside the playfield.
pub open spec fn landed(cells: Seq<Cell>, piece: Piece) -> bool {
    exists|column: int, row: int| #[trigger] piece.covers(column, row) && !free(cells, column, row)
}

/// Withdraws the sideways moves that `piece` cannot make where it stands.
pub fn veto(grid: &Grid, piece: &Piece, input: Input) -> (allowed: Input)
    requires
        grid.wf(),
        piece.wf(),
    ensures
        allowed == vetoed(grid@, *piece, input),
        allowed.left ==> input.left,
        allowed.right ==> input.right,
        allowed.up == input.up,
        allowed.down == input.down,
{
    let cells = piece.current_occupied_cells();
    let mut allowed = input;
    proof {
        lemma_cells_cover(*piece);
    }
    let mut i: usize = 0;
    while i < cells.len()
        invariant
            grid.wf(),
            piece.wf(),
            cells@ == piece.cells(),
            i <= cells.len(),
            forall|j: int|
                0 <= j < piece.cells().len() ==> (#[trigger] piece.cells()[j]).0 <= 3
                    && piece.cells()[j].1 <= 3,
            allowed.up == input.up,
            allowed.down == input.down,
            allowed.left == (input.left && !exists|j: int|
                0 <= j < i && stops_left(grid@, (#[trigger] piece.cell(j)).0, piece.cell(j).1)),
            allowed.right == (input.right && !exists|j: int|
                0 <= j < i && stops_right(grid@, (#[trigger] piece.cell(j)).0, piece.cell(j).1)),
        decreases cells.len() - i,
    {
        let (c, r) = cells[i];
        assert(piece.cell(i as int) == (piece.column + c, piece.row + r));
        let x: i64 = piece.column as i64 + c as i64;
        let below: bool = piece.row >= ROWS || piece.row + r >= ROWS;
        if x <= 0 {
            allowed.left = false;
        } else if x >= COLUMNS as i64 - 1 {
            allowed.right = false;
        } else {
            if below || !grid.is_empty((x - 1) as usize, piece.row + r) {
                allowed.left = false;
            }
            if below || !grid.is_empty((x + 1) as usize, piece.row + r) {
                allowed.right = false;
            }
        }
        i += 1;
    }
    proof {
        if blocked_left(grid@, *piece) {
            let (column, row) = choose|column: int, row: int| #[trigger]
                piece.covers(column, row) && stops_left(grid@, column, row);
            let j = choose|j: int|
                0 <= j < piece.cells().len() && #[trigger] piece.cell(j) == (column, row);
            assert(stops_left(grid@, piece.cell(j).0, piece.cell(j).1));
        }
        if blocked_right(grid@, *piece) {
            let (column, row) = choose|column: int, row: int| #[trigger]
                piece.covers(column, row) && stops_right(grid@, column, row);
            let j = choose|j: int|
                0 <= j < piece.cells().len() && #[trigger] piece.cell(j) == (column, row);
            assert(stops_right(grid@, piece.cell(j).0, piece.cell(j).1));
        }
    }
    allowed
}

/// Moves `piece` one column sideways as `input` asks: to the left if left
/// is asked for, whatever else is; otherwise to the right if right is.
pub fn shift(piece: &mut Piece, input: Input)
    requires
        input.left ==> old(piece).column > i32::MIN,
        !input.left && input.right ==> old(piece).column < i32::MAX,
    ensures
        *final(piece) == shifted(*old(piece), input),
        input.left ==> final(piece).column == old(piece).column - 1,
        !input.left && input.right ==> final(piece).column == old(piece).column + 1,
        !input.left && !input.right ==> final(piece).column == old(piece).column,
{
    if input.left {
        piece.column -= 1;
    } else if input.right {
        piece.column += 1;
    }
}

/// Whether `piece` has landed: one of the cells it fills is taken or lies
/// outside the playfield. The first such cell settles it.
pub fn has_landed(grid: &Grid, piece: &Piece) -> (down: bool)
    requires
        grid.wf(),
        piece.wf(),
    ensures
        down == landed(grid@, *piece),
{
    let cells = piece.current_occupied_cells();
    proof {
        lemma_cells_cover(*piece);
    }
    let mut i: usize = 0;
    while i < cells.len()
        invariant
            grid.wf(),
            piece.wf(),
            cells@ == piece.cells(),
            i <= cells.len(),
            forall|j: int|
                0 <= j < piece.cells().len() ==> (#[trigger] piece.cells()[j]).0 <= 3
                    && piece.cells()[j].1 <= 3 && piece.covers(piece.cell(j).0, piece.cell(j).1),
            forall|j: int| 0 <= j < i ==> free(grid@, (#[trigger] piece.cell(j)).0, piece.cell(j).1),
        decreases cells.len() - i,
    {
        let (c, r) = cells[i];
        assert(piece.cells()[i as int] == (c, r));
        let x: i64 = piece.column as i64 + c as i64;
        if x < 0 || x >= COLUMNS as i64 || piece.row >= ROWS || piece.row + r >= ROWS
            || !grid.is_empty(x as usize, piece.row + r) {
            return true;
        }
        i += 1;
    }
    proof {
        if landed(grid@, *piece) {
            let (column, row) = choose|column: int, row: int| #[trigger]
                piece.covers(column, row) && !free(grid@, column, row);
            let j = choose|j: int|
                0 <= j < piece.cells().len() && #[trigger] piece.cell(j) == (column, row);
            assert(free(grid@, piece.cell(j).0, piece.cell(j).1));
        }
    }
    false
}

/// A piece that stands at the left wall is never moved to the left: once
/// one of the cells it fills lies in the leftmost column, the request is
/// withdrawn, whatever else was asked for and whatever the playfield holds.
pub proof fn lemma_left_wall_stops(cells: Seq<Cell>, piece: Piece, input: Input, row: int)
    requires
        piece.covers(0, row),
    ensures
        !vetoed(cells, piece, input).left,
        shifted(piece, vetoed(cells, piece, input)).column >= piece.column,
{
    assert(stops_left(cells, 0, row));
}

/// The veto keeps a piece between the walls: after the sideways move that
/// the veto has left standing, every cell the piece fills still lies
/// between them.
pub proof fn lemma_shift_in_columns(cells: Seq<Cell>, piece: Piece, input: Input)
    requires
        piece.wf(),
        piece.in_columns(),
    ensures
        shifted(piece, vetoed(cells, piece, input)).in_columns(),
        shifted(piece, vetoed(cells, piece, input)).wf(),
{
    let allowed = vetoed(cells, piece, input);
    let after = shifted(piece, allowed);
    lemma_anchor_bounds(piece);
    assert forall|column: int, row: int| #[trigger] after.covers(column, row) implies 0 <= column
        < COLUMNS by {
        if allowed.left {
            assert(piece.covers(column + 1, row));
        } else if allowed.right {
            assert(piece.covers(column - 1, row));
        }
    }
}

} // verus!
