use tetrus::grid::Grid;
use tetrus::moves::{has_landed, shift, veto, Input};
use tetrus::piece::Piece;
use tetrus::shapes::{Colour, Kind, ShapeSet, COLUMNS};

const GREY: Colour = Colour { r: 9, g: 9, b: 9, a: 255 };
const NOTHING: Input = Input { left: false, right: false, up: false, down: false };
const BOTH: Input = Input { left: true, right: true, up: false, down: false };
const EVERYTHING: Input = Input { left: true, right: true, up: true, down: true };

fn at(kind: Kind, angle: usize, column: i32, row: usize) -> Piece {
    Piece { shapes: ShapeSet { kind }, angle, column, row }
}

#[test]
fn in_the_open_both_moves_stand() {
    let grid = Grid::new();
    assert_eq!(veto(&grid, &Piece::spawn(Kind::T), BOTH), BOTH);
}

#[test]
fn the_left_wall_withdraws_left() {
    let grid = Grid::new();
    let tee = at(Kind::T, 0, 0, 5);
    let allowed = veto(&grid, &tee, BOTH);
    assert!(!allowed.left);
    assert!(allowed.right);
}

#[test]
fn the_left_wall_withdraws_left_whatever_is_asked() {
    let grid = Grid::new();
    let upright = at(Kind::I, 1, -2, 3);
    for input in [NOTHING, BOTH, EVERYTHING, Input { left: true, ..NOTHING }] {
        assert!(!veto(&grid, &upright, input).left);
    }
}

#[test]
fn the_right_wall_withdraws_right() {
    let grid = Grid::new();
    let tee = at(Kind::T, 0, 7, 5);
    let allowed = veto(&grid, &tee, BOTH);
    assert!(allowed.left);
    assert!(!allowed.right);
}

#[test]
fn a_taken_neighbour_withdraws_the_move_towards_it() {
    let mut grid = Grid::new();
    grid.set(3, 6, GREY);
    let tee = at(Kind::T, 0, 4, 5);
    let allowed = veto(&grid, &tee, BOTH);
    assert!(!allowed.left);
    assert!(allowed.right);
    let mut other = Grid::new();
    other.set(7, 6, GREY);
    let allowed = veto(&other, &tee, BOTH);
    assert!(allowed.left);
    assert!(!allowed.right);
}

#[test]
fn a_neighbour_of_an_empty_sub_cell_does_not_count() {
    let mut grid = Grid::new();
    grid.set(3, 5, GREY);
    grid.set(7, 5, GREY);
    let tee = at(Kind::T, 0, 4, 5);
    assert_eq!(veto(&grid, &tee, BOTH), BOTH);
    grid.set(4, 5, GREY);
    assert_eq!(veto(&grid, &tee, BOTH), Input { right: true, ..NOTHING });
    grid.set(6, 5, GREY);
    assert_eq!(veto(&grid, &tee, BOTH), NOTHING);
}

#[test]
fn a_cell_past_the_floor_withdraws_both_moves() {
    let grid = Grid::new();
    let square = at(Kind::O, 0, 4, 19);
    assert_eq!(veto(&grid, &square, BOTH), NOTHING);
}

#[test]
fn a_cell_at_a_wall_does_not_look_at_its_other_side() {
    let mut grid = Grid::new();
    for row in 10..14 {
        grid.set(8, row, GREY);
    }
    let upright = at(Kind::I, 1, 7, 10);
    let allowed = veto(&grid, &upright, BOTH);
    assert!(allowed.left);
    assert!(!allowed.right);
    let mut grid = Grid::new();
    for row in 10..14 {
        grid.set(1, row, GREY);
    }
    let upright = at(Kind::I, 1, -2, 10);
    let allowed = veto(&grid, &upright, BOTH);
    assert!(!allowed.left);
    assert!(allowed.right);
}

#[test]
fn the_veto_grants_nothing_and_leaves_up_and_down() {
    let mut grid = Grid::new();
    grid.set(0, 19, GREY);
    for column in -1..=7 {
        let tee = at(Kind::T, 1, column, 9);
        for input in [NOTHING, EVERYTHING, Input { up: true, ..NOTHING }, Input { down: true, ..NOTHING }] {
            let allowed = veto(&grid, &tee, input);
            assert!(input.left || !allowed.left);
            assert!(input.right || !allowed.right);
            assert_eq!(allowed.up, input.up);
            assert_eq!(allowed.down, input.down);
        }
    }
}

#[test]
fn left_goes_before_right() {
    let mut piece = Piece::spawn(Kind::L);
    shift(&mut piece, BOTH);
    assert_eq!(piece, at(Kind::L, 0, 3, 0));
    shift(&mut piece, EVERYTHING);
    assert_eq!(piece, at(Kind::L, 0, 2, 0));
}

#[test]
fn right_moves_one_column_right() {
    let mut piece = Piece::spawn(Kind::L);
    shift(&mut piece, Input { right: true, ..NOTHING });
    assert_eq!(piece, at(Kind::L, 0, 5, 0));
}

#[test]
fn no_request_no_move() {
    let mut piece = Piece::spawn(Kind::L);
    shift(&mut piece, Input { up: true, down: true, ..NOTHING });
    assert_eq!(piece, Piece::spawn(Kind::L));
}

#[test]
fn a_vetoed_move_keeps_the_piece_between_the_walls() {
    let grid = Grid::new();
    let mut tee = at(Kind::T, 0, 5, 3);
    for _ in 0..(2 * COLUMNS) {
        let allowed = veto(&grid, &tee, Input { right: true, ..NOTHING });
        shift(&mut tee, allowed);
        assert!(tee.lies_in_field());
    }
    assert_eq!(tee.column, 7);
    for _ in 0..(2 * COLUMNS) {
        let allowed = veto(&grid, &tee, Input { left: true, ..NOTHING });
        shift(&mut tee, allowed);
        assert!(tee.lies_in_field());
    }
    assert_eq!(tee.column, 0);
    for turn in 0..6 {
        let allowed = veto(&grid, &tee, BOTH);
        shift(&mut tee, allowed);
        assert_eq!(tee.column, (turn + 1) % 2);
    }
}

#[test]
fn a_piece_in_free_cells_has_not_landed() {
    let mut grid = Grid::new();
    grid.set(4, 19, GREY);
    assert!(!has_landed(&grid, &Piece::spawn(Kind::O)));
    assert!(!has_landed(&grid, &at(Kind::O, 0, 4, 17)));
    assert!(!has_landed(&grid, &at(Kind::O, 0, 5, 18)));
}

#[test]
fn a_piece_in_a_taken_cell_has_landed() {
    let mut grid = Grid::new();
    grid.set(4, 19, GREY);
    assert!(has_landed(&grid, &at(Kind::O, 0, 4, 18)));
    assert!(has_landed(&grid, &at(Kind::O, 0, 3, 18)));
}

#[test]
fn a_piece_past_the_floor_has_landed() {
    let grid = Grid::new();
    assert!(has_landed(&grid, &at(Kind::O, 0, 0, 19)));
    assert!(has_landed(&grid, &at(Kind::I, 0, 0, 19)));
    assert!(!has_landed(&grid, &at(Kind::I, 0, 0, 18)));
    assert!(has_landed(&grid, &at(Kind::T, 2, 0, 18)));
    assert!(!has_landed(&grid, &at(Kind::T, 0, 0, 18)));
}

#[test]
fn an_empty_sub_cell_over_a_taken_cell_does_not_land() {
    let mut grid = Grid::new();
    grid.set(3, 10, GREY);
    grid.set(5, 10, GREY);
    assert!(!has_landed(&grid, &at(Kind::T, 0, 3, 10)));
    grid.set(4, 10, GREY);
    assert!(has_landed(&grid, &at(Kind::T, 0, 3, 10)));
}

#[test]
fn a_piece_beyond_a_wall_is_stopped_by_it() {
    let grid = Grid::new();
    let far_right = at(Kind::O, 0, 50, 3);
    assert_eq!(veto(&grid, &far_right, BOTH), Input { left: true, ..NOTHING });
    let far_left = at(Kind::O, 0, -50, 3);
    assert_eq!(veto(&grid, &far_left, BOTH), Input { right: true, ..NOTHING });
    let far_down = at(Kind::O, 0, 4, usize::MAX);
    assert_eq!(veto(&grid, &far_down, BOTH), NOTHING);
    let corner = at(Kind::O, 0, i32::MAX - 3, usize::MAX - 3);
    assert_eq!(veto(&grid, &corner, EVERYTHING), Input { left: true, up: true, down: true, ..NOTHING });
}

#[test]
fn a_piece_outside_the_walls_has_landed() {
    let grid = Grid::new();
    assert!(has_landed(&grid, &at(Kind::O, 0, -1, 3)));
    assert!(has_landed(&grid, &at(Kind::O, 0, 9, 3)));
    assert!(has_landed(&grid, &at(Kind::O, 0, i32::MIN, 3)));
    assert!(has_landed(&grid, &at(Kind::O, 0, i32::MAX - 3, 3)));
    assert!(has_landed(&grid, &at(Kind::O, 0, 4, usize::MAX - 3)));
    assert!(!has_landed(&grid, &at(Kind::I, 1, -2, 3)));
    assert!(!has_landed(&grid, &at(Kind::I, 1, 7, 3)));
}
