//! One game: the playfield, the falling piece, the piece to come, the
//! score and the two clocks, with the step that advances them.
//!
//! A falling piece probes: gravity moves its anchor first, and the cells it
//! then covers are the ones directly below where it was. While those are
//! free it keeps them. Once one of them is taken or past the floor the
//! piece has landed, and it is written one row up, into the cells it held
//! before.

use crate::grid::{full_rows, lemma_full_rows_bound, lemma_swept_below, stamped, swept, Cell, Grid};
use crate::moves::{
    has_landed, landed, lemma_left_wall_stops, lemma_shift_in_columns, shift, shifted, veto,
    vetoed, Input,
};
use crate::piece::{lemma_anchor_bounds, lemma_spawn_in_field, lemma_turn_in_columns, Piece};
use crate::score::{lemma_room_for_fewer, Score};
use crate::shapes::{colour_of, Kind, CELLS, COLUMNS, ROWS};
use vstd::prelude::*;

verus! {

/// Milliseconds after which a piece falls one row by itself.
pub const FALL_INTERVAL_MS: u64 = 1000;

/// Milliseconds that must pass between two turns.
pub const TURN_INTERVAL_MS: u64 = 100;

/// How a step ended.
#[derive(Clone, Copy, Debug, PartialEq, Eq, Structural)]
pub enum Outcome {
    /// The piece is still on its way down.
    Falling,
    /// The piece has landed and was written into the playfield; the rows
    /// it filled, as many as given, were deleted and the next piece has
    /// taken its place.
    Locked(u32),
    /// The piece has landed where it cannot be written: part of it would
    /// lie above the top row or below the floor. Nothing has changed.
    Blocked,
}

/// What a game holds, as plain values.
pub struct GameView {
    /// The cells of the playfield, row by row from the top.
    pub grid: Seq<Cell>,
    /// The falling piece.
    pub piece: Piece,
    /// The piece that follows it.
    pub next: Piece,
    /// Lines and points so far.
    pub score: Score,
    /// Milliseconds since the piece last fell by itself.
    pub since_fall: u64,
    /// Milliseconds since the last turn.
    pub since_turn: u64,
}

impl GameView {
    /// The playfield is whole, the falling piece lies in it, and the piece
    /// to come is a new one.
    pub open spec fn wf(self) -> bool {
        &&& self.grid.len() == CELLS
        &&& self.piece.wf()
        &&& self.piece.in_field()
        &&& self.next == Piece::spawned(self.next.shapes.kind)
    }

    /// Whether the piece falls by itself in a step that takes
    /// `elapsed_ms`: the fall interval has passed since it last did.
    pub open spec fn fall_due(self, elapsed_ms: u64) -> bool {
        self.since_fall.saturating_add(elapsed_ms) >= FALL_INTERVAL_MS
    }

    /// Whether the piece turns in a step that takes `elapsed_ms`: up is
    /// asked for and the turn interval has passed since the last turn.
    pub open spec fn turn_due(self, input: Input, elapsed_ms: u64) -> bool {
        input.up && self.since_turn.saturating_add(elapsed_ms) >= TURN_INTERVAL_MS
    }

    /// The falling piece after gravity and the turn. It goes one row down
    /// if the fall is due, else one row down if down is asked for: the two
    /// never add up. Then it turns if the turn is due.
    pub open spec fn placed(self, input: Input, elapsed_ms: u64) -> Piece {
        let low = if self.fall_due(elapsed_ms) || input.down {
            self.piece.dropped()
        } else {
            self.piece
        };
        if self.turn_due(input, elapsed_ms) {
            low.turned()
        } else {
            low
        }
    }

    /// The falling piece after the sideways move as well: the moves that
    /// the placed piece cannot make are withdrawn, and of those left
    /// standing left goes before right.
    pub open spec fn moved(self, input: Input, elapsed_ms: u64) -> Piece {
        let placed = self.placed(input, elapsed_ms);
        shifted(placed, vetoed(self.grid, placed, input))
    }

    /// The game with both clocks moved on by `elapsed_ms`, each back at
    /// zero if what it times is due. A clock that has reached the largest
    /// number it can hold stays there.
    pub open spec fn clocked(self, input: Input, elapsed_ms: u64) -> GameView {
        GameView {
            since_fall: if self.fall_due(elapsed_ms) {
                0
            } else {
                self.since_fall.saturating_add(elapsed_ms)
            },
            since_turn: if self.turn_due(input, elapsed_ms) {
                0
            } else {
                self.since_turn.saturating_add(elapsed_ms)
            },
            ..self
        }
    }

    /// The game and the outcome after one step, in which `elapsed_ms`
    /// milliseconds have passed, the player asks for `input`, and a piece
    /// of kind `upcoming` stands by to become the piece after next.
    ///
    /// The piece is placed and moved, then judged. If it has not landed it
    /// keeps its new place. If it has, it is written into the playfield
    /// one row up, the full rows are deleted and counted, the score takes
    /// them, and the next piece takes over. If it has landed where it
    /// cannot be written, the game stays as it was.
    pub open spec fn stepped(self, input: Input, elapsed_ms: u64, upcoming: Kind) -> (
        GameView,
        Outcome,
    ) {
        let moved = self.moved(input, elapsed_ms);
        if !landed(self.grid, moved) {
            (GameView { piece: moved, ..self.clocked(input, elapsed_ms) }, Outcome::Falling)
        } else if !moved.rests_in_field() {
            (self, Outcome::Blocked)
        } else {
            let locked = stamped(self.grid, moved, colour_of(moved.shapes.kind));
            let cleared = full_rows(locked, ROWS as int);
            (
                GameView {
                    grid: swept(locked, ROWS as int),
                    piece: self.next,
                    next: Piece::spawned(upcoming),
                    score: self.score.awarded(cleared as int),
                    ..self.clocked(input, elapsed_ms)
                },
                Outcome::Locked(cleared as u32),
            )
        }
    }
}

/// Through a step the piece stays between the walls and its anchor near
/// the playfield: after gravity and the turn, and after the sideways move.
pub proof fn lemma_step_in_columns(game: GameView, input: Input, elapsed_ms: u64)
    requires
        game.wf(),
    ensures
        game.piece.row < ROWS,
        game.placed(input, elapsed_ms).wf(),
        game.placed(input, elapsed_ms).in_columns(),
        game.placed(input, elapsed_ms).row <= ROWS,
        -3 <= game.placed(input, elapsed_ms).column < COLUMNS,
        game.moved(input, elapsed_ms).wf(),
        game.moved(input, elapsed_ms).in_columns(),
        game.moved(input, elapsed_ms).row <= ROWS,
{
    let low = if game.fall_due(elapsed_ms) || input.down {
        game.piece.dropped()
    } else {
        game.piece
    };
    lemma_anchor_bounds(game.piece);
    assert(low.in_columns()) by {
        assert forall|column: int, row: int| #[trigger] low.covers(column, row) implies 0
            <= column < COLUMNS by {
            assert(game.piece.covers(column, row - (low.row - game.piece.row)));
        }
    }
    if game.turn_due(input, elapsed_ms) {
        lemma_turn_in_columns(low);
    }
    let placed = game.placed(input, elapsed_ms);
    lemma_anchor_bounds(placed);
    lemma_shift_in_columns(game.grid, placed, input);
}

/// A step keeps a game sound: the playfield whole, the falling piece in
/// it, the piece to come a new one.
pub proof fn lemma_step_keeps_wf(game: GameView, input: Input, elapsed_ms: u64, upcoming: Kind)
    requires
        game.wf(),
    ensures
        game.stepped(input, elapsed_ms, upcoming).0.wf(),
{
    let moved = game.moved(input, elapsed_ms);
    lemma_step_in_columns(game, input, elapsed_ms);
    if !landed(game.grid, moved) {
        assert forall|column: int, row: int| #[trigger] moved.covers(column, row) implies 0
            <= column < COLUMNS && 0 <= row < ROWS by {}
    } else if moved.rests_in_field() {
        lemma_spawn_in_field(game.next.shapes.kind);
        lemma_spawn_in_field(upcoming);
        lemma_swept_below(stamped(game.grid, moved, colour_of(moved.shapes.kind)), ROWS as int);
    }
}

/// A step that locks a piece adds the lines it cleared to the line total
/// and a hundred times their square to the points; a step that clears
/// none, or locks nothing, leaves the score as it was.
pub proof fn lemma_step_score(game: GameView, input: Input, elapsed_ms: u64, upcoming: Kind)
    requires
        game.wf(),
        game.score.has_room(),
    ensures
        ({
            let (after, outcome) = game.stepped(input, elapsed_ms, upcoming);
            match outcome {
                Outcome::Locked(cleared) => {
                    &&& cleared <= ROWS
                    &&& after.score.lines == game.score.lines + cleared
                    &&& after.score.points == game.score.points + 100 * cleared * cleared
                    &&& cleared == 0 ==> after.score == game.score
                },
                _ => after.score == game.score,
            }
        }),
{
    let moved = game.moved(input, elapsed_ms);
    let locked = stamped(game.grid, moved, colour_of(moved.shapes.kind));
    let cleared = full_rows(locked, ROWS as int);
    lemma_full_rows_bound(locked, ROWS as int);
    lemma_room_for_fewer(game.score, cleared as int, ROWS as int);
    assert(Score::reward(0) == 0);
}

/// While it falls a piece never rises and never drops more than a row in
/// one step, and its kind stays.
pub proof fn lemma_step_row(game: GameView, input: Input, elapsed_ms: u64, upcoming: Kind)
    requires
        game.wf(),
    ensures
        ({
            let (after, outcome) = game.stepped(input, elapsed_ms, upcoming);
            outcome is Falling ==> {
                &&& game.piece.row <= after.piece.row <= game.piece.row + 1
                &&& after.piece.shapes == game.piece.shapes
                &&& after.next == game.next
            }
        }),
{
    lemma_step_in_columns(game, input, elapsed_ms);
}

/// A piece that stands at the left wall once it is placed does not move
/// to the left in that step, whatever the player asks for.
pub proof fn lemma_step_left_wall(game: GameView, input: Input, elapsed_ms: u64, row: int)
    requires
        game.placed(input, elapsed_ms).covers(0, row),
    ensures
        game.moved(input, elapsed_ms).column >= game.placed(input, elapsed_ms).column,
{
    lemma_left_wall_stops(game.grid, game.placed(input, elapsed_ms), input, row);
}

/// A step that locks nothing leaves the playfield untouched.
pub proof fn lemma_step_grid(game: GameView, input: Input, elapsed_ms: u64, upcoming: Kind)
    ensures
        !(game.stepped(input, elapsed_ms, upcoming).1 is Locked) ==> game.stepped(
            input,
            elapsed_ms,
            upcoming,
        ).0.grid == game.grid,
{
}

/// One game.
pub struct Game {
    grid: Grid,
    piece: Piece,
    next: Piece,
    score: Score,
    since_fall: u64,
    since_turn: u64,
}

impl Game {
    /// What the game holds.
    pub closed spec fn view(&self) -> GameView {
        GameView {
            grid: self.grid@,
            piece: self.piece,
            next: self.next,
            score: self.score,
            since_fall: self.since_fall,
            since_turn: self.since_turn,
        }
    }

    /// The game is sound.
    pub open spec fn wf(&self) -> bool {
        self@.wf()
    }

    /// A new game: an empty playfield, a piece of kind `first` at the top,
    /// one of kind `second` to follow, no score, both clocks at zero.
    pub fn start(first: Kind, second: Kind) -> (game: Game)
        ensures
            game.wf(),
            game@.grid == Seq::new(CELLS as nat, |i: int| Cell::Empty),
            game@.piece == Piece::spawned(first),
            game@.next == Piece::spawned(second),
            game@.score == (Score { points: 0, lines: 0 }),
            game@.since_fall == 0,
            game@.since_turn == 0,
    {
        let grid = Grid::new();
        proof {
            lemma_spawn_in_field(first);
        }
        Game {
            grid,
            piece: Piece::spawn(first),
            next: Piece::spawn(second),
            score: Score::new(),
            since_fall: 0,
            since_turn: 0,
        }
    }

    /// A new game whose first two pieces are drawn at random.
    pub fn new() -> (game: Game)
        ensures
            game.wf(),
            game@.grid == Seq::new(CELLS as nat, |i: int| Cell::Empty),
            game@.piece == Piece::spawned(game@.piece.shapes.kind),
            game@.next == Piece::spawned(game@.next.shapes.kind),
            game@.score == (Score { points: 0, lines: 0 }),
            game@.since_fall == 0,
            game@.since_turn == 0,
    {
        let first = Piece::random();
        let second = Piece::random();
        Game::start(first.shapes.kind, second.shapes.kind)
    }

    /// A game taken up where `grid`, `piece` and `score` stand, with a new
    /// piece of kind `next` to follow and both clocks at zero; `None` if
    /// `piece` has no such rotation state or does not lie in the playfield.
    pub fn resume(grid: Grid, piece: Piece, next: Kind, score: Score) -> (game: Option<Game>)
        requires
            grid.wf(),
        ensures
            game is Some <==> piece.angle < piece.shapes.spec_len() && piece.in_field(),
            game matches Some(g) ==> g.wf() && g@ == (GameView {
                grid: grid@,
                piece,
                next: Piece::spawned(next),
                score,
                since_fall: 0,
                since_turn: 0,
            }),
    {
        if piece.angle >= piece.shapes.len() || !piece.lies_in_field() {
            return None;
        }
        Some(Game { grid, piece, next: Piece::spawn(next), score, since_fall: 0, since_turn: 0 })
    }

    /// The playfield.
    pub fn grid(&self) -> (grid: &Grid)
        ensures
            grid@ == self@.grid,
    {
        &self.grid
    }

    /// The falling piece.
    pub fn piece(&self) -> (piece: Piece)
        ensures
            piece == self@.piece,
    {
        self.piece
    }

    /// The piece that follows the falling one.
    pub fn next_piece(&self) -> (piece: Piece)
        ensures
            piece == self@.next,
    {
        self.next
    }

    /// Lines and points so far.
    pub fn score(&self) -> (score: Score)
        ensures
            score == self@.score,
    {
        self.score
    }

    /// Advances the game by one step, in which `elapsed_ms` milliseconds
    /// have passed and the player asks for `input`. The piece falls, turns
    /// and moves sideways as far as each is due and allowed. If it has then
    /// landed it is locked, the full rows are cleared and scored, the next
    /// piece takes over and a new piece of kind `upcoming` follows it. A
    /// piece that has landed where it cannot be locked blocks the game: the
    /// step changes nothing.
    pub fn step(&mut self, input: Input, elapsed_ms: u64, upcoming: Kind) -> (outcome: Outcome)
        requires
            old(self).wf(),
            old(self)@.score.has_room(),
        ensures
            final(self).wf(),
            (final(self)@, outcome) == old(self)@.stepped(input, elapsed_ms, upcoming),
    {
        proof {
            lemma_step_in_columns(self@, input, elapsed_ms);
            lemma_step_keeps_wf(self@, input, elapsed_ms, upcoming);
        }
        let since_fall: u64 = self.since_fall.saturating_add(elapsed_ms);
        let since_turn: u64 = self.since_turn.saturating_add(elapsed_ms);
        let fall: bool = since_fall >= FALL_INTERVAL_MS;
        let turn: bool = input.up && since_turn >= TURN_INTERVAL_MS;
        let mut piece = self.piece;
        if fall || input.down {
            piece.row += 1;
        }
        if turn {
            piece.turn();
        }
        let allowed = veto(&self.grid, &piece, input);
        shift(&mut piece, allowed);
        let fall_clock: u64 = if fall {
            0
        } else {
            since_fall
        };
        let turn_clock: u64 = if turn {
            0
        } else {
            since_turn
        };
        if !has_landed(&self.grid, &piece) {
            self.piece = piece;
            self.since_fall = fall_clock;
            self.since_turn = turn_clock;
            return Outcome::Falling;
        }
        if !piece.can_rest() {
            return Outcome::Blocked;
        }
        self.grid.lock(&piece);
        let cleared: u32 = self.grid.clear_full_rows();
        proof {
            lemma_room_for_fewer(self.score, cleared as int, ROWS as int);
        }
        self.score.award(cleared);
        self.piece = self.next;
        self.next = Piece::spawn(upcoming);
        self.since_fall = fall_clock;
        self.since_turn = turn_clock;
        Outcome::Locked(cleared)
    }

    /// Advances the game by one step, with a piece of a kind drawn at
    /// random standing by.
    pub fn tick(&mut self, input: Input, elapsed_ms: u64) -> (outcome: Outcome)
        requires
            old(self).wf(),
            old(self)@.score.has_room(),
        ensures
            final(self).wf(),
            exists|upcoming: Kind|
                (final(self)@, outcome) == #[trigger] old(self)@.stepped(
                    input,
                    elapsed_ms,
                    upcoming,
                ),
    {
        let upcoming = Piece::random();
        self.step(input, elapsed_ms, upcoming.shapes.kind)
    }
}

} // verus!
