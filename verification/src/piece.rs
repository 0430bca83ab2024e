//! The active piece: a kind, a rotation state and an anchor, with the
//! enumeration of the sub-cells it fills.

use crate::blocks::{
    addressable, filled_from, lemma_filled_from_complete, lemma_filled_from_sound, BlockIterator,
};
use crate::shapes::{
    filled, kind_at, lemma_reach, lemma_states_square, reach, states, widths, Kind, Shape,
    ShapeSet, COLUMNS, ROWS,
};
use vstd::prelude::*;

verus! {

/// The column at which a new piece appears.
pub const SPAWN_COLUMN: i32 = 4;

/// A number drawn by `rand::random::<usize>()`, which samples the calling
/// thread's generator. Nothing is claimed of the number. The call does not
/// return where the operating system cannot seed the generator.
#[verifier::external_body]
fn random_roll() -> (roll: usize) {
    rand::random::<usize>()
}

/// A tetromino on its way down: its catalog entry, its rotation state and
/// the anchor from which its sub-cells are offset.
#[derive(Clone, Copy, Debug, PartialEq, Eq, Structural)]
pub struct Piece {
    pub shapes: ShapeSet,
    pub angle: usize,
    pub column: i32,
    pub row: usize,
}

impl Piece {
    /// The rotation state is one that the kind has.
    pub open spec fn wf(&self) -> bool {
        self.angle < states(self.shapes.kind).len()
    }

    /// The current rotation state, as rows of flags.
    pub open spec fn shape(&self) -> Seq<Seq<u8>> {
        states(self.shapes.kind)[self.angle as int]
    }

    /// The filled sub-cells of the current rotation state as (column
    /// offset, row offset), row by row from the top and left to right.
    pub open spec fn cells(&self) -> Seq<(usize, usize)> {
        filled_from(self.shape(), 0, 0)
    }

    /// Whether the piece fills the cell at (`column`, `row`) of the
    /// playfield's coordinates.
    pub open spec fn covers(&self, column: int, row: int) -> bool {
        filled(self.shapes.kind, self.angle as int, row - self.row, column - self.column)
    }

    /// The column and the row of the playfield at which the `i`-th sub-cell
    /// that the piece lists lies.
    pub open spec fn cell(&self, i: int) -> (int, int) {
        (self.column + self.cells()[i].0, self.row + self.cells()[i].1)
    }

    /// Whether every cell that the piece fills lies between the walls.
    pub open spec fn in_columns(&self) -> bool {
        forall|column: int, row: int| #[trigger]
            self.covers(column, row) ==> 0 <= column < COLUMNS
    }

    /// Whether every cell that the piece fills lies between the walls and
    /// in a row from `low` to `high`.
    pub open spec fn within(&self, low: int, high: int) -> bool {
        forall|column: int, row: int| #[trigger]
            self.covers(column, row) ==> 0 <= column < COLUMNS && low <= row <= high
    }

    /// Whether every cell that the piece fills lies in the playfield.
    pub open spec fn in_field(&self) -> bool {
        self.within(0, ROWS - 1)
    }

    /// Whether every cell directly above one that the piece fills lies in
    /// the playfield.
    pub open spec fn rests_in_field(&self) -> bool {
        self.within(1, ROWS as int)
    }

    /// A new piece of `kind`: first rotation state, spawn column, top row.
    pub open spec fn spawned(kind: Kind) -> Piece {
        Piece { shapes: ShapeSet { kind }, angle: 0, column: SPAWN_COLUMN, row: 0 }
    }

    /// The piece one rotation state further, back to the first after the
    /// last. The anchor stays.
    pub open spec fn rotated(self) -> Piece {
        Piece {
            angle: if self.angle + 1 == states(self.shapes.kind).len() {
                0
            } else {
                (self.angle + 1) as usize
            },
            ..self
        }
    }

    /// The footprint width declared for the current rotation state.
    pub open spec fn spec_width(&self) -> u8 {
        widths(self.shapes.kind)[self.angle as int % 2]
    }

    /// The rightmost anchor column that the declared footprint width
    /// allows.
    pub open spec fn max_column(&self) -> int {
        COLUMNS - self.spec_width()
    }

    /// The piece with its anchor column brought into `0 ..= max_column()`.
    pub open spec fn clamped(self) -> Piece {
        Piece {
            column: if self.column > self.max_column() {
                self.max_column() as i32
            } else if self.column < 0 {
                0
            } else {
                self.column
            },
            ..self
        }
    }

    /// The piece after a turn: one rotation state further, with the anchor
    /// column brought back into the range that the new state's declared
    /// footprint width allows.
    pub open spec fn turned(self) -> Piece {
        self.rotated().clamped()
    }

    /// The piece one row further down.
    pub open spec fn dropped(self) -> Piece {
        Piece { row: (self.row + 1) as usize, ..self }
    }

    /// A new piece of `kind`.
    pub fn spawn(kind: Kind) -> (piece: Piece)
        ensures
            piece == Piece::spawned(kind),
            piece.wf(),
    {
        proof {
            lemma_states_square(kind);
        }
        Piece { shapes: ShapeSet { kind }, angle: 0, column: SPAWN_COLUMN, row: 0 }
    }

    /// A new piece of the kind that a roll of any size selects: the roll
    /// is taken modulo the number of kinds.
    pub fn from_roll(roll: usize) -> (piece: Piece)
        ensures
            piece == Piece::spawned(kind_at(roll as int % 7)),
            piece.wf(),
    {
        let shapes = ShapeSet::from_index(roll % 7);
        proof {
            lemma_states_square(shapes.kind);
        }
        Piece { shapes, angle: 0, column: SPAWN_COLUMN, row: 0 }
    }

    /// A new piece of a kind drawn at random: a number from the thread's
    /// generator, taken modulo the number of kinds. Whatever the number,
    /// the piece is a new one.
    pub fn random() -> (piece: Piece)
        ensures
            piece == Piece::spawned(piece.shapes.kind),
            piece.wf(),
    {
        Piece::from_roll(random_roll())
    }

    /// The current rotation state, as rows of flags.
    pub fn current_shape(&self) -> (shape: Shape)
        requires
            self.wf(),
        ensures
            shape.deep_view() == self.shape(),
    {
        self.shapes.get(self.angle)
    }

    /// The footprint width declared for the current rotation state.
    #[verifier::when_used_as_spec(spec_width)]
    pub fn width(&self) -> (width: u8)
        ensures
            width == self.spec_width(),
    {
        self.shapes.width(self.angle)
    }

    /// Turns the piece to its next rotation state.
    pub fn rotate(&mut self)
        requires
            old(self).wf(),
        ensures
            *final(self) == old(self).rotated(),
            final(self).wf(),
    {
        self.angle += 1;
        if self.angle == self.shapes.len() {
            self.angle = 0;
        }
    }

    /// Brings the anchor column back between 0 and the rightmost column
    /// that the declared footprint width allows.
    pub fn clamp(&mut self)
        ensures
            *final(self) == old(self).clamped(),
            0 <= final(self).column <= final(self).max_column(),
    {
        let max: i32 = (COLUMNS - self.width() as usize) as i32;
        if self.column > max {
            self.column = max;
        } else if self.column < 0 {
            self.column = 0;
        }
    }

    /// Turns the piece to its next rotation state and brings its anchor
    /// column back into range. The column is clamped whether or not the
    /// turned piece would have passed a wall; nothing else is tried.
    pub fn turn(&mut self)
        requires
            old(self).wf(),
        ensures
            *final(self) == old(self).turned(),
            final(self).wf(),
    {
        self.rotate();
        self.clamp();
    }

    /// A walk over the filled sub-cells of the current rotation state.
    pub fn block_iter(&self) -> (iter: BlockIterator)
        requires
            self.wf(),
        ensures
            iter.wf(),
            iter@ == self.cells(),
    {
        let shape = self.current_shape();
        proof {
            lemma_states_square(self.shapes.kind);
            assert forall|r: int| 0 <= r < shape@.len() implies (#[trigger] shape@[r])@.len()
                > 0 by {
                assert(shape.deep_view()[r] == shape@[r]@);
            }
        }
        BlockIterator::over(shape)
    }

    /// The filled sub-cells of the current rotation state as (column
    /// offset, row offset), row by row from the top and left to right.
    pub fn current_occupied_cells(&self) -> (cells: Vec<(usize, usize)>)
        requires
            self.wf(),
        ensures
            cells@ == self.cells(),
    {
        let mut iter = self.block_iter();
        let mut cells: Vec<(usize, usize)> = Vec::new();
        loop
            invariant
                iter.wf(),
                cells@ + iter@ == self.cells(),
            ensures
                cells@ == self.cells(),
            decreases iter@.len(),
        {
            match iter.next() {
                Some(cell) => cells.push(cell),
                None => break ,
            }
        }
        cells
    }

    /// Whether every cell that the piece fills lies between the walls and
    /// in a row from `low` to `high`. A piece whose anchor is out of reach
    /// of such cells is turned down before its cells are walked.
    fn fits(&self, low: usize, high: usize) -> (ok: bool)
        requires
            self.wf(),
            high <= ROWS,
        ensures
            ok == self.within(low as int, high as int),
    {
        proof {
            lemma_anchor_near(*self);
            lemma_cells_cover(*self);
        }
        if self.row > high || self.column < -3 || self.column >= COLUMNS as i32 {
            return false;
        }
        let cells = self.current_occupied_cells();
        let mut i: usize = 0;
        while i < cells.len()
            invariant
                self.wf(),
                high <= ROWS,
                self.row <= high,
                -3 <= self.column < COLUMNS,
                cells@ == self.cells(),
                i <= cells.len(),
                forall|j: int|
                    0 <= j < self.cells().len() ==> (#[trigger] self.cells()[j]).0 <= 3
                        && self.cells()[j].1 <= 3 && self.covers(self.cell(j).0, self.cell(j).1),
                forall|j: int|
                    0 <= j < i ==> 0 <= (#[trigger] self.cell(j)).0 < COLUMNS && low <= self.cell(
                        j,
                    ).1 <= high,
            decreases cells.len() - i,
        {
            let (c, r) = cells[i];
            assert(self.cells()[i as int] == (c, r));
            let x: i32 = self.column + c as i32;
            let y: usize = self.row + r;
            if x < 0 || x >= COLUMNS as i32 || y < low || y > high {
                return false;
            }
            i += 1;
        }
        true
    }

    /// Whether every cell that the piece fills lies in the playfield.
    pub fn lies_in_field(&self) -> (ok: bool)
        requires
            self.wf(),
        ensures
            ok == self.in_field(),
    {
        self.fits(0, ROWS - 1)
    }

    /// Whether the piece can be written one row above the cells it fills
    /// without leaving the playfield.
    pub fn can_rest(&self) -> (ok: bool)
        requires
            self.wf(),
        ensures
            ok == self.rests_in_field(),
    {
        self.fits(1, ROWS)
    }
}

/// A turn keeps a piece between the walls: if every cell it fills lies
/// between them before the turn, every cell it fills after the turn does.
pub proof fn lemma_turn_in_columns(piece: Piece)
    requires
        piece.wf(),
        piece.in_columns(),
    ensures
        piece.turned().wf(),
        piece.turned().in_columns(),
{
    let kind = piece.shapes.kind;
    let after = piece.turned();
    lemma_states_square(kind);
    lemma_reach(kind, piece.angle as int);
    lemma_reach(kind, after.angle as int);
    let row = choose|row: int| #[trigger]
        filled(kind, piece.angle as int, row, reach(kind, piece.angle as int));
    assert(piece.covers(piece.column + reach(kind, piece.angle as int), piece.row + row));
    assert(after.column + reach(kind, after.angle as int) < COLUMNS);
}

/// Every piece fills a cell at most three columns right of its anchor and
/// at most three rows below it.
pub proof fn lemma_anchor_near(piece: Piece)
    requires
        piece.wf(),
    ensures
        exists|column: int, row: int| #[trigger]
            piece.covers(column, row) && piece.column <= column <= piece.column + 3 && piece.row
                <= row <= piece.row + 3,
{
    let kind = piece.shapes.kind;
    lemma_states_square(kind);
    lemma_reach(kind, piece.angle as int);
    let row = choose|row: int| #[trigger]
        filled(kind, piece.angle as int, row, reach(kind, piece.angle as int));
    assert(piece.covers(piece.column + reach(kind, piece.angle as int), piece.row + row));
}

/// The anchor of a piece between the walls is near them: at most three
/// columns left of the left wall. The anchor of a piece in the playfield
/// lies in one of its rows.
pub proof fn lemma_anchor_bounds(piece: Piece)
    requires
        piece.wf(),
        piece.in_columns(),
    ensures
        -3 <= piece.column < COLUMNS,
        piece.in_field() ==> piece.row < ROWS,
{
    lemma_anchor_near(piece);
}

/// A new piece lies in the playfield.
pub proof fn lemma_spawn_in_field(kind: Kind)
    ensures
        Piece::spawned(kind).wf(),
        Piece::spawned(kind).in_field(),
        Piece::spawned(kind).in_columns(),
{
    lemma_states_square(kind);
}

/// Four rotations bring a piece of any kind but the square back to where
/// it was.
pub proof fn lemma_four_rotations(piece: Piece)
    requires
        piece.wf(),
        piece.shapes.kind != Kind::O,
    ensures
        piece.rotated().rotated().rotated().rotated() == piece,
{
    lemma_states_square(piece.shapes.kind);
}

/// A rotation leaves the square as it is: the same state, the same filled
/// cells.
pub proof fn lemma_square_rotation(piece: Piece)
    requires
        piece.wf(),
        piece.shapes.kind == Kind::O,
    ensures
        piece.rotated() == piece,
        piece.rotated().cells() == piece.cells(),
        forall|column: int, row: int|
            piece.rotated().covers(column, row) == piece.covers(column, row),
{
    lemma_states_square(piece.shapes.kind);
}

/// Four turns bring a piece of any kind but the square back to its
/// rotation state, and so to the same range for its anchor column; the
/// column itself is the old one brought into the narrower of the kind's two
/// ranges. Four more turns change nothing.
pub proof fn lemma_four_turns(piece: Piece)
    requires
        piece.wf(),
        piece.shapes.kind != Kind::O,
    ensures
        ({
            let once = piece.turned().turned().turned().turned();
            let narrow = if piece.max_column() <= piece.turned().max_column() {
                piece.max_column()
            } else {
                piece.turned().max_column()
            };
            &&& once.angle == piece.angle
            &&& once.shapes == piece.shapes
            &&& once.row == piece.row
            &&& once.max_column() == piece.max_column()
            &&& once.column == (if piece.column > narrow {
                narrow
            } else if piece.column < 0 {
                0
            } else {
                piece.column as int
            })
            &&& once.turned().turned().turned().turned() == once
        }),
{
    lemma_states_square(piece.shapes.kind);
}

/// The sub-cells that a piece lists are the sub-cells that its rotation
/// state fills: each listed one is filled, and each filled one is listed.
pub proof fn lemma_cells_filled(piece: Piece)
    requires
        piece.wf(),
    ensures
        forall|i: int|
            0 <= i < piece.cells().len() ==> filled(
                piece.shapes.kind,
                piece.angle as int,
                (#[trigger] piece.cells()[i]).1 as int,
                piece.cells()[i].0 as int,
            ),
        forall|row: int, column: int| #[trigger]
            filled(piece.shapes.kind, piece.angle as int, row, column) ==> exists|i: int|
                0 <= i < piece.cells().len() && #[trigger] piece.cells()[i] == (
                    column as usize,
                    row as usize,
                ),
{
    let kind = piece.shapes.kind;
    let rows = piece.shape();
    lemma_states_square(kind);
    assert forall|i: int| 0 <= i < piece.cells().len() implies filled(
        kind,
        piece.angle as int,
        (#[trigger] piece.cells()[i]).1 as int,
        piece.cells()[i].0 as int,
    ) by {
        lemma_filled_from_sound(rows, 0, 0, i);
    }
    assert forall|row: int, column: int| #[trigger]
        filled(kind, piece.angle as int, row, column) implies exists|i: int|
        0 <= i < piece.cells().len() && #[trigger] piece.cells()[i] == (
            column as usize,
            row as usize,
        ) by {
        lemma_filled_from_complete(rows, 0, 0, column, row);
        let i = choose|i: int|
            0 <= i < filled_from(rows, 0, 0).len() && #[trigger] filled_from(rows, 0, 0)[i] == (
                column as usize,
                row as usize,
            );
        assert(piece.cells()[i] == (column as usize, row as usize));
    }
}

/// The cells that a piece lists are the cells that it covers: each listed
/// one is covered, and each covered one is listed. No listed sub-cell lies
/// further than three from the anchor.
pub proof fn lemma_cells_cover(piece: Piece)
    requires
        piece.wf(),
    ensures
        forall|i: int|
            0 <= i < piece.cells().len() ==> (#[trigger] piece.cells()[i]).0 <= 3
                && piece.cells()[i].1 <= 3 && piece.covers(piece.cell(i).0, piece.cell(i).1),
        forall|column: int, row: int| #[trigger]
            piece.covers(column, row) ==> exists|i: int|
                0 <= i < piece.cells().len() && #[trigger] piece.cell(i) == (column, row),
{
    lemma_cells_filled(piece);
    lemma_states_square(piece.shapes.kind);
    assert forall|column: int, row: int| #[trigger] piece.covers(column, row) implies exists|
        i: int,
    |
        0 <= i < piece.cells().len() && #[trigger] piece.cell(i) == (column, row) by {
        let i = choose|i: int|
            0 <= i < piece.cells().len() && #[trigger] piece.cells()[i] == (
                (column - piece.column) as usize,
                (row - piece.row) as usize,
            );
        assert(piece.cell(i) == (column, row));
    }
}

} // verus!
