//! The score: lines cleared and points earned so far.

use crate::shapes::ROWS;
use vstd::prelude::*;

verus! {

/// The running totals of a game.
#[derive(Clone, Copy, Debug, PartialEq, Eq, Structural)]
pub struct Score {
    pub points: u32,
    pub lines: u32,
}

impl Score {
    /// The points that clearing `cleared` lines with one piece earns.
    pub open spec fn reward(cleared: int) -> int {
        100 * cleared * cleared
    }

    /// The totals after one piece has cleared `cleared` lines.
    pub open spec fn awarded(self, cleared: int) -> Score {
        Score {
            points: (self.points + Score::reward(cleared)) as u32,
            lines: (self.lines + cleared) as u32,
        }
    }

    /// Whether the totals can take the clearing of `cleared` lines without
    /// leaving the range of their type.
    pub open spec fn can_take(self, cleared: int) -> bool {
        &&& self.lines + cleared <= u32::MAX
        &&& self.points + Score::reward(cleared) <= u32::MAX
    }

    /// Whether the totals can take whatever one piece may clear, which is
    /// at most every row of the playfield.
    pub open spec fn spec_has_room(&self) -> bool {
        self.can_take(ROWS as int)
    }

    /// No lines, no points.
    pub fn new() -> (score: Score)
        ensures
            score.points == 0,
            score.lines == 0,
    {
        Score { points: 0, lines: 0 }
    }

    /// Whether the totals can take whatever one piece may clear.
    #[verifier::when_used_as_spec(spec_has_room)]
    pub fn has_room(&self) -> (room: bool)
        ensures
            room == self.spec_has_room(),
    {
        self.lines <= u32::MAX - 20 && self.points <= u32::MAX - 40_000
    }

    /// Counts the lines that one piece has cleared: the lines are added to
    /// the line total and a hundred times their square to the points.
    pub fn award(&mut self, cleared: u32)
        requires
            old(self).can_take(cleared as int),
        ensures
            final(self).lines == old(self).lines + cleared,
            final(self).points == old(self).points + 100 * cleared * cleared,
            *final(self) == old(self).awarded(cleared as int),
            cleared == 0 ==> *final(self) == *old(self),
            final(self).lines >= old(self).lines,
            final(self).points >= old(self).points,
    {
        assert(cleared * cleared <= 100 * cleared * cleared) by (nonlinear_arith);
        assert(100 * (cleared * cleared) == 100 * cleared * cleared) by (nonlinear_arith);
        self.lines += cleared;
        self.points += (cleared * cleared) * 100;
    }
}

/// Clearing fewer lines never needs more room than clearing more.
pub proof fn lemma_room_for_fewer(score: Score, fewer: int, more: int)
    requires
        0 <= fewer <= more,
        score.can_take(more),
    ensures
        score.can_take(fewer),
{
    assert(fewer * fewer <= more * more) by (nonlinear_arith)
        requires
            0 <= fewer <= more,
    ;
    assert(100 * fewer * fewer == 100 * (fewer * fewer)) by (nonlinear_arith);
    assert(100 * more * more == 100 * (more * more)) by (nonlinear_arith);
}

} // verus!
