//! The catalog of tetromino shapes: seven kinds, their rotation states,
//! footprint widths and colours.

use vstd::prelude::*;

verus! {

/// Number of columns of the playfield.
pub const COLUMNS: usize = 10;

/// Number of rows of the playfield; row 0 is the top.
pub const ROWS: usize = 20;

/// Number of cells of the playfield.
pub const CELLS: usize = 200;

/// One rotation state: a square of flags, row by row, where a flag other
/// than 0 marks a filled sub-cell.
pub type Shape = Vec<Vec<u8>>;

/// An RGBA colour.
#[derive(Clone, Copy, Debug, PartialEq, Eq, Structural)]
pub struct Colour {
    pub r: u8,
    pub g: u8,
    pub b: u8,
    pub a: u8,
}

impl Colour {
    /// The colour of the frame drawn round every tile.
    pub open spec fn spec_grey() -> Colour {
        Colour { r: 128, g: 128, b: 128, a: 255 }
    }

    /// The colour in which an empty tile is drawn.
    pub open spec fn spec_black() -> Colour {
        Colour { r: 0, g: 0, b: 0, a: 255 }
    }

    #[verifier::when_used_as_spec(spec_grey)]
    pub fn grey() -> (colour: Colour)
        ensures
            colour == Colour::spec_grey(),
    {
        Colour { r: 128, g: 128, b: 128, a: 255 }
    }

    #[verifier::when_used_as_spec(spec_black)]
    pub fn black() -> (colour: Colour)
        ensures
            colour == Colour::spec_black(),
    {
        Colour { r: 0, g: 0, b: 0, a: 255 }
    }
}

/// The seven tetromino kinds.
#[derive(Clone, Copy, Debug, PartialEq, Eq, Structural)]
pub enum Kind {
    T,
    O,
    S,
    Z,
    L,
    J,
    I,
}

/// The kind that a catalog index stands for. An index past the last entry
/// stands for the last kind.
pub open spec fn kind_at(index: int) -> Kind {
    if index == 0 {
        Kind::T
    } else if index == 1 {
        Kind::O
    } else if index == 2 {
        Kind::S
    } else if index == 3 {
        Kind::Z
    } else if index == 4 {
        Kind::L
    } else if index == 5 {
        Kind::J
    } else {
        Kind::I
    }
}

/// The rotation states of a kind, in the order in which a turn steps
/// through them.
pub open spec fn states(kind: Kind) -> Seq<Seq<Seq<u8>>> {
    match kind {
        Kind::T => seq![
            seq![seq![0u8, 1, 0], seq![1u8, 1, 1], seq![0u8, 0, 0]],
            seq![seq![0u8, 1, 0], seq![0u8, 1, 1], seq![0u8, 1, 0]],
            seq![seq![0u8, 0, 0], seq![1u8, 1, 1], seq![0u8, 1, 0]],
            seq![seq![0u8, 1, 0], seq![1u8, 1, 0], seq![0u8, 1, 0]],
        ],
        Kind::O => seq![seq![seq![1u8, 1], seq![1u8, 1]]],
        Kind::S => seq![
            seq![seq![0u8, 1, 1], seq![1u8, 1, 0], seq![0u8, 0, 0]],
            seq![seq![0u8, 1, 0], seq![0u8, 1, 1], seq![0u8, 0, 1]],
            seq![seq![0u8, 0, 0], seq![0u8, 1, 1], seq![1u8, 1, 0]],
            seq![seq![1u8, 0, 0], seq![1u8, 1, 0], seq![0u8, 1, 0]],
        ],
        Kind::Z => seq![
            seq![seq![1u8, 1, 0], seq![0u8, 1, 1], seq![0u8, 0, 0]],
            seq![seq![0u8, 0, 1], seq![0u8, 1, 1], seq![0u8, 1, 0]],
            seq![seq![0u8, 0, 0], seq![1u8, 1, 0], seq![0u8, 1, 1]],
            seq![seq![0u8, 1, 0], seq![1u8, 1, 0], seq![1u8, 0, 0]],
        ],
        Kind::L => seq![
            seq![seq![0u8, 0, 1], seq![1u8, 1, 1], seq![0u8, 0, 0]],
            seq![seq![0u8, 1, 0], seq![0u8, 1, 0], seq![0u8, 1, 1]],
            seq![seq![0u8, 0, 0], seq![1u8, 1, 1], seq![1u8, 0, 0]],
            seq![seq![1u8, 1, 0], seq![0u8, 1, 0], seq![0u8, 1, 0]],
        ],
        Kind::J => seq![
            seq![seq![1u8, 0, 0], seq![1u8, 1, 1], seq![0u8, 0, 0]],
            seq![seq![0u8, 1, 1], seq![0u8, 1, 0], seq![0u8, 1, 0]],
            seq![seq![0u8, 0, 0], seq![1u8, 1, 1], seq![0u8, 0, 1]],
            seq![seq![0u8, 1, 0], seq![0u8, 1, 0], seq![1u8, 1, 0]],
        ],
        Kind::I => seq![
            seq![seq![0u8, 0, 0, 0], seq![1u8, 1, 1, 1], seq![0u8, 0, 0, 0], seq![0u8, 0, 0, 0]],
            seq![seq![0u8, 0, 1, 0], seq![0u8, 0, 1, 0], seq![0u8, 0, 1, 0], seq![0u8, 0, 1, 0]],
            seq![seq![0u8, 0, 0, 0], seq![0u8, 0, 0, 0], seq![1u8, 1, 1, 1], seq![0u8, 0, 0, 0]],
            seq![seq![0u8, 1, 0, 0], seq![0u8, 1, 0, 0], seq![0u8, 1, 0, 0], seq![0u8, 1, 0, 0]],
        ],
    }
}

/// The side of the square that holds a kind's rotation states.
pub open spec fn side(kind: Kind) -> int {
    match kind {
        Kind::O => 2,
        Kind::I => 4,
        _ => 3,
    }
}

/// The footprint width that a kind declares for even and for odd rotation
/// states.
pub open spec fn widths(kind: Kind) -> Seq<u8> {
    match kind {
        Kind::O => seq![2u8, 2],
        Kind::I => seq![4u8, 1],
        _ => seq![3u8, 2],
    }
}

/// The display colour of a kind.
pub open spec fn colour_of(kind: Kind) -> Colour {
    match kind {
        Kind::T => Colour { r: 255, g: 0, b: 255, a: 255 },
        Kind::O => Colour { r: 255, g: 255, b: 0, a: 255 },
        Kind::S => Colour { r: 0, g: 255, b: 0, a: 255 },
        Kind::Z => Colour { r: 255, g: 0, b: 0, a: 255 },
        Kind::L => Colour { r: 255, g: 165, b: 0, a: 255 },
        Kind::J => Colour { r: 0, g: 0, b: 255, a: 255 },
        Kind::I => Colour { r: 0, g: 255, b: 255, a: 255 },
    }
}

/// Whether sub-cell (`row`, `column`) of rotation state `angle` of `kind`
/// is filled. Outside the state's square nothing is filled.
pub open spec fn filled(kind: Kind, angle: int, row: int, column: int) -> bool {
    &&& 0 <= angle < states(kind).len()
    &&& 0 <= row < side(kind)
    &&& 0 <= column < side(kind)
    &&& states(kind)[angle][row][column] != 0
}

/// The largest column offset of a filled sub-cell of a rotation state.
pub open spec fn reach(kind: Kind, angle: int) -> int {
    match kind {
        Kind::O => 1,
        Kind::I => if angle == 1 {
            2
        } else if angle == 3 {
            1
        } else {
            3
        },
        _ => if angle == 3 {
            1
        } else {
            2
        },
    }
}

/// Every kind has one rotation state or four, and each state is a square
/// of the kind's side.
pub proof fn lemma_states_square(kind: Kind)
    ensures
        states(kind).len() == (if kind == Kind::O {
            1int
        } else {
            4
        }),
        forall|angle: int|
            0 <= angle < states(kind).len() ==> (#[trigger] states(kind)[angle]).len() == side(
                kind,
            ),
        forall|angle: int, row: int|
            0 <= angle < states(kind).len() && 0 <= row < side(kind) ==> (
            #[trigger] states(kind)[angle][row]).len() == side(kind),
{
}

/// No filled sub-cell of a rotation state lies right of its reach, and
/// one lies at it.
pub proof fn lemma_reach(kind: Kind, angle: int)
    requires
        0 <= angle < states(kind).len(),
    ensures
        0 <= reach(kind, angle) < side(kind),
        forall|row: int, column: int| #[trigger]
            filled(kind, angle, row, column) ==> column <= reach(kind, angle),
        exists|row: int| #[trigger] filled(kind, angle, row, reach(kind, angle)),
{
    lemma_states_square(kind);
    match kind {
        Kind::T => {
            assert(filled(kind, angle, 1, reach(kind, angle)));
        },
        Kind::O => {
            assert(filled(kind, angle, 0, reach(kind, angle)));
        },
        Kind::S => {
            assert(filled(kind, angle, if angle == 0 {
                0int
            } else {
                1
            }, reach(kind, angle)));
        },
        Kind::Z => {
            assert(filled(kind, angle, if angle == 2 {
                2int
            } else {
                1
            }, reach(kind, angle)));
        },
        Kind::L => {
            assert(filled(kind, angle, if angle == 1 {
                2int
            } else if angle == 3 {
                0
            } else {
                1
            }, reach(kind, angle)));
        },
        Kind::J => {
            assert(filled(kind, angle, if angle == 1 {
                0int
            } else {
                1
            }, reach(kind, angle)));
        },
        Kind::I => {
            assert(filled(kind, angle, if angle == 2 {
                2int
            } else {
                1
            }, reach(kind, angle)));
        },
    }
}

/// One kind's entry in the catalog.
#[derive(Clone, Copy, Debug, PartialEq, Eq, Structural)]
pub struct ShapeSet {
    pub kind: Kind,
}

impl ShapeSet {
    /// The number of rotation states of the kind.
    pub open spec fn spec_len(&self) -> usize {
        states(self.kind).len() as usize
    }

    /// The entry of the kind that `piece_type` stands for.
    pub fn from_index(piece_type: usize) -> (set: ShapeSet)
        ensures
            set.kind == kind_at(piece_type as int),
    {
        match piece_type {
            0 => ShapeSet { kind: Kind::T },
            1 => ShapeSet { kind: Kind::O },
            2 => ShapeSet { kind: Kind::S },
            3 => ShapeSet { kind: Kind::Z },
            4 => ShapeSet { kind: Kind::L },
            5 => ShapeSet { kind: Kind::J },
            _ => ShapeSet { kind: Kind::I },
        }
    }

    /// Rotation state `angle` of the kind, as rows of flags.
    pub fn get(&self, angle: usize) -> (shape: Shape)
        requires
            angle < self.spec_len(),
        ensures
            shape.deep_view() == states(self.kind)[angle as int],
    {
        proof {
            lemma_states_square(self.kind);
        }
        let shape = match self.kind {
            Kind::T => match angle {
                0 => vec![vec![0u8, 1, 0], vec![1u8, 1, 1], vec![0u8, 0, 0]],
                1 => vec![vec![0u8, 1, 0], vec![0u8, 1, 1], vec![0u8, 1, 0]],
                2 => vec![vec![0u8, 0, 0], vec![1u8, 1, 1], vec![0u8, 1, 0]],
                _ => vec![vec![0u8, 1, 0], vec![1u8, 1, 0], vec![0u8, 1, 0]],
            },
            Kind::O => vec![vec![1u8, 1], vec![1u8, 1]],
            Kind::S => match angle {
                0 => vec![vec![0u8, 1, 1], vec![1u8, 1, 0], vec![0u8, 0, 0]],
                1 => vec![vec![0u8, 1, 0], vec![0u8, 1, 1], vec![0u8, 0, 1]],
                2 => vec![vec![0u8, 0, 0], vec![0u8, 1, 1], vec![1u8, 1, 0]],
                _ => vec![vec![1u8, 0, 0], vec![1u8, 1, 0], vec![0u8, 1, 0]],
            },
            Kind::Z => match angle {
                0 => vec![vec![1u8, 1, 0], vec![0u8, 1, 1], vec![0u8, 0, 0]],
                1 => vec![vec![0u8, 0, 1], vec![0u8, 1, 1], vec![0u8, 1, 0]],
                2 => vec![vec![0u8, 0, 0], vec![1u8, 1, 0], vec![0u8, 1, 1]],
                _ => vec![vec![0u8, 1, 0], vec![1u8, 1, 0], vec![1u8, 0, 0]],
            },
            Kind::L => match angle {
                0 => vec![vec![0u8, 0, 1], vec![1u8, 1, 1], vec![0u8, 0, 0]],
                1 => vec![vec![0u8, 1, 0], vec![0u8, 1, 0], vec![0u8, 1, 1]],
                2 => vec![vec![0u8, 0, 0], vec![1u8, 1, 1], vec![1u8, 0, 0]],
                _ => vec![vec![1u8, 1, 0], vec![0u8, 1, 0], vec![0u8, 1, 0]],
            },
            Kind::J => match angle {
                0 => vec![vec![1u8, 0, 0], vec![1u8, 1, 1], vec![0u8, 0, 0]],
                1 => vec![vec![0u8, 1, 1], vec![0u8, 1, 0], vec![0u8, 1, 0]],
                2 => vec![vec![0u8, 0, 0], vec![1u8, 1, 1], vec![0u8, 0, 1]],
                _ => vec![vec![0u8, 1, 0], vec![0u8, 1, 0], vec![1u8, 1, 0]],
            },
            Kind::I => match angle {
                0 => vec![vec![0u8, 0, 0, 0], vec![1u8, 1, 1, 1], vec![0u8, 0, 0, 0], vec![0u8, 0, 0, 0]],
                1 => vec![vec![0u8, 0, 1, 0], vec![0u8, 0, 1, 0], vec![0u8, 0, 1, 0], vec![0u8, 0, 1, 0]],
                2 => vec![vec![0u8, 0, 0, 0], vec![0u8, 0, 0, 0], vec![1u8, 1, 1, 1], vec![0u8, 0, 0, 0]],
                _ => vec![vec![0u8, 1, 0, 0], vec![0u8, 1, 0, 0], vec![0u8, 1, 0, 0], vec![0u8, 1, 0, 0]],
            },
        };
        assert(shape.deep_view() =~~= states(self.kind)[angle as int]);
        shape
    }

    /// The number of rotation states: one for the square, four for every
    /// other kind.
    #[verifier::when_used_as_spec(spec_len)]
    pub fn len(&self) -> (n: usize)
        ensures
            n == states(self.kind).len(),
            n == self.spec_len(),
            n == (if self.kind == Kind::O {
                1int
            } else {
                4
            }),
    {
        proof {
            lemma_states_square(self.kind);
        }
        match self.kind {
            Kind::O => 1,
            _ => 4,
        }
    }

    /// The display colour of the kind.
    pub fn colour(&self) -> (colour: Colour)
        ensures
            colour == colour_of(self.kind),
    {
        match self.kind {
            Kind::T => Colour { r: 255, g: 0, b: 255, a: 255 },
            Kind::O => Colour { r: 255, g: 255, b: 0, a: 255 },
            Kind::S => Colour { r: 0, g: 255, b: 0, a: 255 },
            Kind::Z => Colour { r: 255, g: 0, b: 0, a: 255 },
            Kind::L => Colour { r: 255, g: 165, b: 0, a: 255 },
            Kind::J => Colour { r: 0, g: 0, b: 255, a: 255 },
            Kind::I => Colour { r: 0, g: 255, b: 255, a: 255 },
        }
    }

    /// The footprint width declared for the parity of `angle`.
    pub fn width(&self, angle: usize) -> (width: u8)
        ensures
            width == widths(self.kind)[angle as int % 2],
    {
        let odd = angle % 2 == 1;
        match self.kind {
            Kind::O => 2,
            Kind::I => if odd {
                1
            } else {
                4
            },
            _ => if odd {
                2
            } else {
                3
            },
        }
    }
}

} // verus!
