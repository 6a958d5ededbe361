use std::collections::HashSet;
use tetris::geometry::{Offset, Point, Rotation, Spin};
use tetris::piece::{ActivePiece, Shape, Tetromino};

struct Domino;

impl Shape for Domino {
    fn bounding_box(&self) -> i16 {
        4
    }

    fn cells(&self, _rotation: Rotation) -> [Offset; 4] {
        [
            Offset::new(1, 0),
            Offset::new(2, 0),
            Offset::new(1, 1),
            Offset::new(2, 1),
        ]
    }
}

#[test]
fn cells_at_anchors_the_footprint_to_an_absolute_origin() {
    let placed = Domino.cells_at(Point::new(10, 5), Rotation::Spawn);
    assert!(placed.contains(&Point::new(11, 5)));
    assert!(placed.contains(&Point::new(12, 6)));
}

#[test]
fn cells_at_preserves_the_four_cell_count() {
    assert_eq!(Domino.cells_at(Point::new(-3, -3), Rotation::Half).len(), 4);
}

#[test]
fn width_ignores_empty_margins_so_wall_checks_are_not_too_strict() {
    assert_eq!(Domino.width(Rotation::Spawn), 2);
    assert_ne!(Domino.width(Rotation::Spawn), Domino.bounding_box());
}

#[test]
fn left_margin_reports_the_first_occupied_column() {
    assert_eq!(Domino.left_margin(Rotation::Spawn), 1);
}

#[test]
fn a_shape_implementor_needs_only_two_methods_for_the_engine_to_use_it() {
    let origin = Point::new(0, 0);
    assert_eq!(Domino.cells_at(origin, Rotation::Left).len(), 4);
    assert_eq!(Domino.width(Rotation::Left), 2);
}

fn cell_set(piece: Tetromino, rotation: Rotation) -> HashSet<Offset> {
    piece.cells(rotation).into_iter().collect()
}

#[test]
fn every_piece_always_occupies_exactly_four_distinct_cells() {
    for piece in Tetromino::ALL {
        for rotation in Rotation::ALL {
            assert_eq!(
                cell_set(piece, rotation).len(),
                4,
                "{piece:?} at {rotation:?} lost or doubled a cell"
            );
        }
    }
}

#[test]
fn rotation_never_pushes_a_piece_outside_its_own_bounding_box() {
    for piece in Tetromino::ALL {
        let side = piece.bounding_box();
        for rotation in Rotation::ALL {
            for cell in piece.cells(rotation) {
                assert!(
                    (0..side).contains(&cell.dx) && (0..side).contains(&cell.dy),
                    "{piece:?} at {rotation:?} escaped its {side}x{side} box at {cell:?}"
                );
            }
        }
    }
}

#[test]
fn four_quarter_turns_restore_the_original_footprint() {
    for piece in Tetromino::ALL {
        assert_eq!(
            cell_set(piece, Rotation::Spawn),
            cell_set(
                piece,
                Rotation::Spawn
                    .clockwise()
                    .clockwise()
                    .clockwise()
                    .clockwise()
            ),
        );
    }
}

#[test]
fn the_square_is_the_only_piece_rotation_leaves_untouched() {
    for piece in Tetromino::ALL {
        let unchanged = Rotation::ALL
            .iter()
            .all(|&r| cell_set(piece, r) == cell_set(piece, Rotation::Spawn));
        assert_eq!(
            unchanged,
            piece == Tetromino::O,
            "{piece:?} rotational symmetry is wrong"
        );
    }
}

#[test]
fn the_line_piece_is_the_only_one_spanning_four_columns() {
    for piece in Tetromino::ALL {
        let width = piece
            .cells(Rotation::Spawn)
            .iter()
            .map(|c| c.dx)
            .collect::<HashSet<_>>()
            .len();
        assert_eq!(
            width == 4,
            piece == Tetromino::I,
            "{piece:?} width is wrong"
        );
    }
}

#[test]
fn s_and_z_are_mirror_images_rather_than_the_same_piece() {
    assert_ne!(
        cell_set(Tetromino::S, Rotation::Spawn),
        cell_set(Tetromino::Z, Rotation::Spawn)
    );
}

#[test]
fn every_piece_has_a_distinct_letter_so_the_next_queue_is_readable() {
    let letters: HashSet<char> = Tetromino::ALL.iter().map(|p| p.letter()).collect();
    assert_eq!(letters.len(), Tetromino::ALL.len());
}

#[test]
fn the_t_piece_spawns_flat_side_down() {
    assert_eq!(
        Tetromino::T.cells(Rotation::Spawn),
        [
            Offset::new(1, 0),
            Offset::new(0, 1),
            Offset::new(1, 1),
            Offset::new(2, 1)
        ]
    );
    assert_eq!(
        Tetromino::T.cells(Rotation::Right),
        [
            Offset::new(2, 1),
            Offset::new(1, 0),
            Offset::new(1, 1),
            Offset::new(1, 2)
        ]
    );
}

fn t_piece() -> ActivePiece {
    ActivePiece::new(Tetromino::T, Point::new(3, 0))
}

#[test]
fn a_new_piece_starts_in_spawn_orientation() {
    assert_eq!(t_piece().rotation, Rotation::Spawn);
}

#[test]
fn moving_leaves_the_original_untouched_so_a_rejected_move_costs_nothing() {
    let piece = t_piece();
    let candidate = piece.shifted(Offset::left());
    assert_eq!(piece.origin, Point::new(3, 0));
    assert_ne!(candidate.origin, piece.origin);
}

#[test]
fn shifting_translates_every_cell_by_the_same_amount() {
    let piece = t_piece();
    let moved = piece.shifted(Offset::new(2, 3));
    for (before, after) in piece.cells().into_iter().zip(moved.cells()) {
        assert_eq!(after - before, Offset::new(2, 3));
    }
}

#[test]
fn spinning_changes_orientation_without_moving_the_bounding_box() {
    let piece = t_piece();
    let spun = piece.spun(Spin::Clockwise);
    assert_eq!(spun.origin, piece.origin);
    assert_ne!(spun.cells(), piece.cells());
}

#[test]
fn a_spin_and_its_reverse_restore_the_exact_footprint() {
    let piece = t_piece();
    let round_trip = piece.spun(Spin::Clockwise).spun(Spin::CounterClockwise);
    assert_eq!(round_trip, piece);
}

#[test]
fn lowest_row_tracks_the_bottom_of_the_footprint_not_the_origin() {
    let piece = ActivePiece::new(Tetromino::T, Point::new(0, 0));
    assert_eq!(piece.lowest_row(), 1);
}

#[test]
fn a_piece_always_reports_four_cells() {
    for kind in Tetromino::ALL {
        for rotation in Rotation::ALL {
            let piece = ActivePiece {
                kind,
                origin: Point::new(4, 2),
                rotation,
            };
            assert_eq!(piece.cells().len(), 4);
        }
    }
}

#[test]
fn cells_are_computed_right_up_to_the_largest_coordinate() {
    let piece = ActivePiece::new(Tetromino::O, Point::new(i16::MAX - 1, i16::MAX - 1));
    let cells = piece.cells();
    assert!(cells.contains(&Point::new(i16::MAX, i16::MAX)));
    assert!(cells.contains(&Point::new(i16::MAX - 1, i16::MAX - 1)));
    assert_eq!(piece.lowest_row(), i16::MAX);
}

#[test]
fn shifting_moves_each_cell_by_the_offset() {
    let piece = ActivePiece::new(Tetromino::T, Point::new(3, 5));
    let offset = Offset::new(-2, 4);
    let moved = piece.shifted(offset);
    let before = piece.cells();
    let after = moved.cells();
    for i in 0..4 {
        assert_eq!(after[i], Point::new(before[i].x - 2, before[i].y + 4));
    }
    assert_eq!((moved.kind, moved.rotation), (piece.kind, piece.rotation));
}
