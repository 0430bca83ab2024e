use tetrus::shapes::{Colour, Kind, ShapeSet, CELLS, COLUMNS, ROWS};

const KINDS: [Kind; 7] = [Kind::T, Kind::O, Kind::S, Kind::Z, Kind::L, Kind::J, Kind::I];

#[test]
fn playfield_is_ten_by_twenty() {
    assert_eq!(COLUMNS, 10);
    assert_eq!(ROWS, 20);
    assert_eq!(CELLS, COLUMNS * ROWS);
}

#[test]
fn from_index_walks_the_seven_kinds_in_order() {
    for (index, kind) in KINDS.iter().enumerate() {
        assert_eq!(ShapeSet::from_index(index).kind, *kind);
    }
}

#[test]
fn from_index_past_the_end_gives_the_bar() {
    assert_eq!(ShapeSet::from_index(7).kind, Kind::I);
    assert_eq!(ShapeSet::from_index(1000).kind, Kind::I);
    assert_eq!(ShapeSet::from_index(usize::MAX).kind, Kind::I);
}

#[test]
fn square_has_one_state_and_the_others_four() {
    for kind in KINDS {
        let expected: usize = if kind == Kind::O { 1 } else { 4 };
        assert_eq!(ShapeSet { kind }.len(), expected);
    }
}

#[test]
fn tee_states_are_as_drawn() {
    let tee = ShapeSet::from_index(0);
    assert_eq!(tee.get(0), vec![vec![0, 1, 0], vec![1, 1, 1], vec![0, 0, 0]]);
    assert_eq!(tee.get(1), vec![vec![0, 1, 0], vec![0, 1, 1], vec![0, 1, 0]]);
    assert_eq!(tee.get(2), vec![vec![0, 0, 0], vec![1, 1, 1], vec![0, 1, 0]]);
    assert_eq!(tee.get(3), vec![vec![0, 1, 0], vec![1, 1, 0], vec![0, 1, 0]]);
}

#[test]
fn square_state_is_two_by_two() {
    assert_eq!(ShapeSet::from_index(1).get(0), vec![vec![1, 1], vec![1, 1]]);
}

#[test]
fn ess_and_zed_states_are_as_drawn() {
    let ess = ShapeSet::from_index(2);
    assert_eq!(ess.get(0), vec![vec![0, 1, 1], vec![1, 1, 0], vec![0, 0, 0]]);
    assert_eq!(ess.get(1), vec![vec![0, 1, 0], vec![0, 1, 1], vec![0, 0, 1]]);
    assert_eq!(ess.get(2), vec![vec![0, 0, 0], vec![0, 1, 1], vec![1, 1, 0]]);
    assert_eq!(ess.get(3), vec![vec![1, 0, 0], vec![1, 1, 0], vec![0, 1, 0]]);
    let zed = ShapeSet::from_index(3);
    assert_eq!(zed.get(0), vec![vec![1, 1, 0], vec![0, 1, 1], vec![0, 0, 0]]);
    assert_eq!(zed.get(1), vec![vec![0, 0, 1], vec![0, 1, 1], vec![0, 1, 0]]);
    assert_eq!(zed.get(2), vec![vec![0, 0, 0], vec![1, 1, 0], vec![0, 1, 1]]);
    assert_eq!(zed.get(3), vec![vec![0, 1, 0], vec![1, 1, 0], vec![1, 0, 0]]);
}

#[test]
fn ell_and_jay_states_are_as_drawn() {
    let ell = ShapeSet::from_index(4);
    assert_eq!(ell.get(0), vec![vec![0, 0, 1], vec![1, 1, 1], vec![0, 0, 0]]);
    assert_eq!(ell.get(1), vec![vec![0, 1, 0], vec![0, 1, 0], vec![0, 1, 1]]);
    assert_eq!(ell.get(2), vec![vec![0, 0, 0], vec![1, 1, 1], vec![1, 0, 0]]);
    assert_eq!(ell.get(3), vec![vec![1, 1, 0], vec![0, 1, 0], vec![0, 1, 0]]);
    let jay = ShapeSet::from_index(5);
    assert_eq!(jay.get(0), vec![vec![1, 0, 0], vec![1, 1, 1], vec![0, 0, 0]]);
    assert_eq!(jay.get(1), vec![vec![0, 1, 1], vec![0, 1, 0], vec![0, 1, 0]]);
    assert_eq!(jay.get(2), vec![vec![0, 0, 0], vec![1, 1, 1], vec![0, 0, 1]]);
    assert_eq!(jay.get(3), vec![vec![0, 1, 0], vec![0, 1, 0], vec![1, 1, 0]]);
}

#[test]
fn bar_states_are_as_drawn() {
    let bar = ShapeSet::from_index(6);
    assert_eq!(
        bar.get(0),
        vec![vec![0, 0, 0, 0], vec![1, 1, 1, 1], vec![0, 0, 0, 0], vec![0, 0, 0, 0]]
    );
    assert_eq!(
        bar.get(1),
        vec![vec![0, 0, 1, 0], vec![0, 0, 1, 0], vec![0, 0, 1, 0], vec![0, 0, 1, 0]]
    );
    assert_eq!(
        bar.get(2),
        vec![vec![0, 0, 0, 0], vec![0, 0, 0, 0], vec![1, 1, 1, 1], vec![0, 0, 0, 0]]
    );
    assert_eq!(
        bar.get(3),
        vec![vec![0, 1, 0, 0], vec![0, 1, 0, 0], vec![0, 1, 0, 0], vec![0, 1, 0, 0]]
    );
}

#[test]
fn every_state_is_a_square_with_four_filled_cells() {
    for kind in KINDS {
        let set = ShapeSet { kind };
        let side: usize = match kind {
            Kind::O => 2,
            Kind::I => 4,
            _ => 3,
        };
        for angle in 0..set.len() {
            let shape = set.get(angle);
            assert_eq!(shape.len(), side);
            let mut filled: usize = 0;
            for row in &shape {
                assert_eq!(row.len(), side);
                filled += row.iter().filter(|flag| **flag != 0).count();
            }
            assert_eq!(filled, 4);
        }
    }
}

#[test]
fn colours_are_those_of_the_kinds() {
    let expected: [(u8, u8, u8); 7] = [
        (255, 0, 255),
        (255, 255, 0),
        (0, 255, 0),
        (255, 0, 0),
        (255, 165, 0),
        (0, 0, 255),
        (0, 255, 255),
    ];
    for (index, (r, g, b)) in expected.iter().enumerate() {
        let colour = ShapeSet::from_index(index).colour();
        assert_eq!(colour, Colour { r: *r, g: *g, b: *b, a: 255 });
    }
}

#[test]
fn frame_and_blank_colours() {
    assert_eq!(Colour::grey(), Colour { r: 128, g: 128, b: 128, a: 255 });
    assert_eq!(Colour::black(), Colour { r: 0, g: 0, b: 0, a: 255 });
}

#[test]
fn widths_go_by_the_parity_of_the_angle() {
    for kind in KINDS {
        let set = ShapeSet { kind };
        let (even, odd): (u8, u8) = match kind {
            Kind::O => (2, 2),
            Kind::I => (4, 1),
            _ => (3, 2),
        };
        assert_eq!(set.width(0), even);
        assert_eq!(set.width(1), odd);
        assert_eq!(set.width(2), even);
        assert_eq!(set.width(3), odd);
        assert_eq!(set.width(17), odd);
    }
}
