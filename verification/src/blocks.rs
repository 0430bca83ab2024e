//! The walk over a rotation state that hands out its filled sub-cells and
//! skips the empty ones.

use crate::shapes::Shape;
use vstd::prelude::*;

verus! {

/// The filled sub-cells of `rows` from position (`x`, `y`) on, row by row
/// from the top and left to right within a row, each as (column offset,
/// row offset).
pub open spec fn filled_from(rows: Seq<Seq<u8>>, x: int, y: int) -> Seq<(usize, usize)>
    decreases
        rows.len() - y,
        (if 0 <= y < rows.len() {
            rows[y].len() - x
        } else {
            0
        }),
{
    if x < 0 || y < 0 || y >= rows.len() {
        Seq::empty()
    } else if x >= rows[y].len() {
        filled_from(rows, 0, y + 1)
    } else if rows[y][x] != 0 {
        seq![(x as usize, y as usize)] + filled_from(rows, x + 1, y)
    } else {
        filled_from(rows, x + 1, y)
    }
}

/// Whether every row of `rows`, and `rows` itself, is short enough for its
/// offsets to be held in a `usize`.
pub open spec fn addressable(rows: Seq<Seq<u8>>) -> bool {
    &&& rows.len() <= usize::MAX
    &&& forall|r: int| 0 <= r < rows.len() ==> (#[trigger] rows[r]).len() <= usize::MAX
}

/// Every item of `filled_from(rows, x, y)` is a filled sub-cell at or
/// after (`x`, `y`).
pub proof fn lemma_filled_from_sound(rows: Seq<Seq<u8>>, x: int, y: int, i: int)
    requires
        addressable(rows),
        0 <= x,
        0 <= y,
        0 <= i < filled_from(rows, x, y).len(),
    ensures
        ({
            let (c, r) = filled_from(rows, x, y)[i];
            &&& y <= r < rows.len()
            &&& 0 <= c < rows[r as int].len()
            &&& rows[r as int][c as int] != 0
            &&& r == y ==> x <= c
        }),
    decreases
        rows.len() - y,
        (if 0 <= y < rows.len() {
            rows[y].len() - x
        } else {
            0
        }),
{
    if y >= rows.len() {
    } else if x >= rows[y].len() {
        lemma_filled_from_sound(rows, 0, y + 1, i);
    } else if rows[y][x] != 0 {
        if i > 0 {
            lemma_filled_from_sound(rows, x + 1, y, i - 1);
        }
    } else {
        lemma_filled_from_sound(rows, x + 1, y, i);
    }
}

/// Every filled sub-cell at or after (`x`, `y`) is an item of
/// `filled_from(rows, x, y)`.
pub proof fn lemma_filled_from_complete(rows: Seq<Seq<u8>>, x: int, y: int, c: int, r: int)
    requires
        addressable(rows),
        0 <= x,
        0 <= y,
        y <= r < rows.len(),
        0 <= c < rows[r].len(),
        r == y ==> x <= c,
        rows[r][c] != 0,
    ensures
        exists|i: int|
            0 <= i < filled_from(rows, x, y).len() && #[trigger] filled_from(rows, x, y)[i] == (
                c as usize,
                r as usize,
            ),
    decreases
        rows.len() - y,
        (if 0 <= y < rows.len() {
            rows[y].len() - x
        } else {
            0
        }),
{
    let here = filled_from(rows, x, y);
    if x >= rows[y].len() {
        lemma_filled_from_complete(rows, 0, y + 1, c, r);
    } else if r == y && c == x {
        assert(here[0] == (c as usize, r as usize));
    } else {
        lemma_filled_from_complete(rows, x + 1, y, c, r);
        let rest = filled_from(rows, x + 1, y);
        let j = choose|j: int| 0 <= j < rest.len() && rest[j] == (c as usize, r as usize);
        if rows[y][x] != 0 {
            assert(here[j + 1] == rest[j]);
        }
    }
}

/// Walks the filled sub-cells of one rotation state.
pub struct BlockIterator {
    x: usize,
    y: usize,
    shape: Shape,
}

impl BlockIterator {
    /// The walk stands on a sub-cell of a shape without empty rows, or
    /// past its last row.
    pub closed spec fn wf(&self) -> bool {
        &&& forall|r: int| 0 <= r < self.shape@.len() ==> (#[trigger] self.shape@[r])@.len() > 0
        &&& self.y <= self.shape@.len()
        &&& self.y < self.shape@.len() ==> self.x < self.shape@[self.y as int]@.len()
    }

    /// The sub-cells still to come, in the order in which `next` hands
    /// them out.
    pub closed spec fn view(&self) -> Seq<(usize, usize)> {
        filled_from(self.shape.deep_view(), self.x as int, self.y as int)
    }

    /// A walk over `shape` from its top-left sub-cell.
    pub fn over(shape: Shape) -> (iter: BlockIterator)
        requires
            forall|r: int| 0 <= r < shape@.len() ==> (#[trigger] shape@[r])@.len() > 0,
        ensures
            iter.wf(),
            iter@ == filled_from(shape.deep_view(), 0, 0),
    {
        BlockIterator { x: 0, y: 0, shape }
    }

    /// The next filled sub-cell as (column offset, row offset), or `None`
    /// when the walk is over.
    pub fn next(&mut self) -> (item: Option<(usize, usize)>)
        requires
            old(self).wf(),
        ensures
            final(self).wf(),
            old(self)@.len() == 0 ==> item is None && final(self)@ == old(self)@,
            old(self)@.len() > 0 ==> item == Some(old(self)@[0]) && final(self)@ == old(
                self,
            )@.skip(1),
    {
        loop
            invariant
                self.wf(),
                self@ == old(self)@,
            decreases
                self.shape@.len() - self.y,
                (if self.y < self.shape@.len() {
                    self.shape@[self.y as int]@.len() - self.x
                } else {
                    0
                }),
        {
            let x: usize = self.x;
            let y: usize = self.y;
            if y == self.shape.len() {
                return None;
            }
            let ghost rows = self.shape.deep_view();
            let width: usize = self.shape[y].len();
            let flag: u8 = self.shape[y][x];
            self.x += 1;
            if self.x == width {
                self.x = 0;
                self.y += 1;
            }
            proof {
                if x + 1 == width {
                    assert(filled_from(rows, x + 1, y as int) == filled_from(rows, 0, y + 1));
                }
            }
            if flag != 0 {
                return Some((x, y));
            }
        }
    }
}

} // verus!
