use tetris::board::{Board, Cell, Playfield};
use tetris::geometry::Point;
use tetris::piece::{ActivePiece, Tetromino};

#[test]
fn a_fresh_cell_is_empty_so_a_new_board_is_playable() {
    assert!(Cell::default().is_empty());
}

#[test]
fn empty_and_filled_are_exact_opposites() {
    for cell in [Cell::Empty, Cell::Filled(Tetromino::I)] {
        assert_ne!(cell.is_empty(), cell.is_filled());
    }
}

#[test]
fn a_filled_cell_remembers_its_piece_so_the_stack_keeps_its_colour() {
    assert_eq!(Cell::Filled(Tetromino::Z).tetromino(), Some(Tetromino::Z));
}

#[test]
fn an_empty_cell_has_no_colour_to_report() {
    assert_eq!(Cell::Empty.tetromino(), None);
}

fn fill_row(board: &mut Board, row: i16, kind: Tetromino) {
    for x in 0..board.width() {
        board.set(Point::new(x, row), Cell::Filled(kind));
    }
}

#[test]
fn a_new_board_is_entirely_empty_so_the_first_piece_can_always_spawn() {
    let board = Board::standard();
    assert!((0..board.height()).all(|row| board.is_row_empty(row)));
}

#[test]
fn cells_outside_the_field_read_as_none_rather_than_wrapping_around() {
    let board = Board::new(4, 4);
    assert_eq!(board.cell(Point::new(-1, 0)), None);
    assert_eq!(board.cell(Point::new(4, 0)), None);
    assert_eq!(board.cell(Point::new(0, 4)), None);
}

#[test]
fn out_of_bounds_is_never_free_so_walls_and_floor_block_movement() {
    let board = Board::new(4, 4);
    assert!(!board.is_free(Point::new(-1, 2)));
    assert!(!board.is_free(Point::new(0, 4)));
}

#[test]
fn locking_a_piece_records_its_kind_in_every_cell_it_covered() {
    let mut board = Board::standard();
    let piece = ActivePiece::new(Tetromino::T, Point::new(3, 0));
    board.lock(&piece);
    for cell in piece.cells() {
        assert_eq!(board.cell(cell), Some(Cell::Filled(Tetromino::T)));
    }
}

#[test]
fn a_locked_piece_blocks_a_later_one_from_overlapping_it() {
    let mut board = Board::standard();
    let piece = ActivePiece::new(Tetromino::O, Point::new(3, 0));
    board.lock(&piece);
    assert!(!board.accepts(&piece));
}

#[test]
fn a_row_is_full_only_when_every_column_is_occupied() {
    let mut board = Board::new(4, 4);
    fill_row(&mut board, 3, Tetromino::I);
    assert!(board.is_row_full(3));
    board.set(Point::new(2, 3), Cell::Empty);
    assert!(!board.is_row_full(3));
}

#[test]
fn clearing_removes_the_full_row_and_reports_it() {
    let mut board = Board::new(4, 4);
    fill_row(&mut board, 3, Tetromino::I);
    assert_eq!(board.clear_full_rows(), vec![3]);
    assert!(board.is_row_empty(3));
}

#[test]
fn clearing_collapses_the_stack_downward_instead_of_leaving_a_hole() {
    let mut board = Board::new(4, 4);
    board.set(Point::new(1, 2), Cell::Filled(Tetromino::S));
    fill_row(&mut board, 3, Tetromino::I);
    board.clear_full_rows();
    assert_eq!(
        board.cell(Point::new(1, 3)),
        Some(Cell::Filled(Tetromino::S))
    );
    assert!(board.is_row_empty(2));
}

#[test]
fn four_simultaneous_rows_all_clear_in_one_pass() {
    let mut board = Board::new(4, 8);
    for row in 4..8 {
        fill_row(&mut board, row, Tetromino::I);
    }
    assert_eq!(board.clear_full_rows(), vec![4, 5, 6, 7]);
    assert!((0..8).all(|row| board.is_row_empty(row)));
}

#[test]
fn non_adjacent_rows_clear_together_without_disturbing_the_gap_between() {
    let mut board = Board::new(4, 6);
    fill_row(&mut board, 3, Tetromino::I);
    fill_row(&mut board, 5, Tetromino::I);
    board.set(Point::new(0, 4), Cell::Filled(Tetromino::L));
    assert_eq!(board.clear_full_rows(), vec![3, 5]);
    assert_eq!(
        board.cell(Point::new(0, 5)),
        Some(Cell::Filled(Tetromino::L))
    );
}

#[test]
fn clearing_nothing_leaves_the_board_byte_for_byte_identical() {
    let mut board = Board::new(4, 4);
    board.set(Point::new(0, 0), Cell::Filled(Tetromino::J));
    let before = board.clone();
    assert!(board.clear_full_rows().is_empty());
    assert_eq!(board, before);
}

#[test]
fn landed_drops_a_piece_to_the_floor_when_the_column_is_clear() {
    let board = Board::new(4, 6);
    let piece = ActivePiece::new(Tetromino::O, Point::new(0, 0));
    assert_eq!(board.landed(&piece).lowest_row(), board.height() - 1);
}

#[test]
fn landed_stops_on_top_of_the_stack_rather_than_passing_through_it() {
    let mut board = Board::new(4, 6);
    fill_row(&mut board, 5, Tetromino::I);
    let piece = ActivePiece::new(Tetromino::O, Point::new(0, 0));
    assert_eq!(board.landed(&piece).lowest_row(), 4);
}

#[test]
fn landed_is_idempotent_so_a_hard_drop_cannot_be_repeated_for_extra_ground() {
    let board = Board::new(4, 6);
    let piece = ActivePiece::new(Tetromino::T, Point::new(0, 0));
    let once = board.landed(&piece);
    assert_eq!(board.landed(&once), once);
}

#[test]
fn stack_top_reports_the_highest_occupied_row() {
    let mut board = Board::new(4, 6);
    assert_eq!(board.stack_top(), None);
    board.set(Point::new(2, 4), Cell::Filled(Tetromino::Z));
    assert_eq!(board.stack_top(), Some(4));
}

#[test]
fn setting_a_square_off_the_board_changes_nothing() {
    let mut board = Board::new(4, 4);
    let before = board.clone();
    board.set(Point::new(7, 1), Cell::Filled(Tetromino::T));
    board.set(Point::new(-1, 1), Cell::Filled(Tetromino::T));
    assert_eq!(board, before);
}

#[test]
fn a_piece_overhanging_a_wall_is_not_accepted() {
    let board = Board::new(4, 4);
    let piece = ActivePiece::new(Tetromino::O, Point::new(3, 0));
    assert!(!board.accepts(&piece));
    assert!(board.accepts(&ActivePiece::new(Tetromino::O, Point::new(2, 2))));
}

#[test]
fn a_drop_goes_exactly_as_deep_as_the_piece_fits() {
    let board = Board::new(10, 8);
    let piece = ActivePiece::new(Tetromino::O, Point::new(3, 0));
    let landed = board.landed(&piece);
    assert_eq!(landed.origin, Point::new(3, 6));
    assert!(board.accepts(&landed));
    assert_eq!(board.landed(&landed), landed);
}
