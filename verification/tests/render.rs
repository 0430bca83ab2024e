use tetrus::grid::Grid;
use tetrus::piece::Piece;
use tetrus::render::{Fill, BLOCK_SIZE};
use tetrus::shapes::{Colour, Kind, ShapeSet, CELLS};

const GREY: Colour = Colour { r: 128, g: 128, b: 128, a: 255 };
const BLACK: Colour = Colour { r: 0, g: 0, b: 0, a: 255 };
const YELLOW: Colour = Colour { r: 255, g: 255, b: 0, a: 255 };
const RED: Colour = Colour { r: 255, g: 0, b: 0, a: 255 };

fn frame(x: i32, y: i32) -> Fill {
    Fill { x, y, width: 30, height: 30, colour: GREY }
}

fn inlay(x: i32, y: i32, colour: Colour) -> Fill {
    Fill { x: x + 1, y: y + 1, width: 28, height: 28, colour }
}

#[test]
fn a_tile_is_thirty_pixels_wide() {
    assert_eq!(BLOCK_SIZE, 30);
}

#[test]
fn a_new_square_is_drawn_as_four_framed_tiles() {
    let fills = Piece::spawn(Kind::O).draw(250, 0);
    assert_eq!(
        fills,
        vec![
            frame(370, 0),
            inlay(370, 0, YELLOW),
            frame(400, 0),
            inlay(400, 0, YELLOW),
            frame(370, 30),
            inlay(370, 30, YELLOW),
            frame(400, 30),
            inlay(400, 30, YELLOW),
        ]
    );
}

#[test]
fn the_preview_is_drawn_from_its_own_corner() {
    let fills = Piece::spawn(Kind::Z).draw(500, 80);
    assert_eq!(
        fills,
        vec![
            frame(620, 80),
            inlay(620, 80, RED),
            frame(650, 80),
            inlay(650, 80, RED),
            frame(650, 110),
            inlay(650, 110, RED),
            frame(680, 110),
            inlay(680, 110, RED),
        ]
    );
}

#[test]
fn a_piece_left_of_its_anchor_column_zero_is_drawn_where_its_cells_are() {
    let upright = Piece { shapes: ShapeSet { kind: Kind::I }, angle: 1, column: -2, row: 16 };
    let fills = upright.draw(250, 0);
    let cyan = Colour { r: 0, g: 255, b: 255, a: 255 };
    assert_eq!(fills.len(), 8);
    for (i, row) in (16..20).enumerate() {
        assert_eq!(fills[2 * i], frame(250, 30 * row));
        assert_eq!(fills[2 * i + 1], inlay(250, 30 * row, cyan));
    }
}

#[test]
fn an_empty_grid_is_drawn_as_black_tiles_in_grey_frames() {
    let fills = Grid::new().draw(250, 0);
    assert_eq!(fills.len(), 2 * CELLS);
    for cell in 0..CELLS {
        let x = 250 + 30 * (cell % 10) as i32;
        let y = 30 * (cell / 10) as i32;
        assert_eq!(fills[2 * cell], frame(x, y));
        assert_eq!(fills[2 * cell + 1], Fill { x, y, width: 30, height: 30, colour: BLACK });
    }
}

#[test]
fn a_taken_cell_is_drawn_with_a_border() {
    let mut grid = Grid::new();
    grid.set(3, 2, RED);
    let fills = grid.draw(10, 20);
    assert_eq!(fills[2 * 23], frame(100, 80));
    assert_eq!(fills[2 * 23 + 1], inlay(100, 80, RED));
    assert_eq!(fills[2 * 24], frame(130, 80));
    assert_eq!(fills[2 * 24 + 1], Fill { x: 130, y: 80, width: 30, height: 30, colour: BLACK });
}
