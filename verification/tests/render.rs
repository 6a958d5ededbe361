use std::collections::HashSet;
use tetris::board::{Cell, Playfield};
use tetris::game::{Engine, Phase, Snapshot};
use tetris::geometry::Point;
use tetris::piece::Tetromino;
use tetris::render::chrome::draw_box;
use tetris::render::sidebar_panel::decimal_text;
use tetris::render::{
    BoardPanel, Canvas, Color, Glyph, HelpPanel, OverlayPanel, Paint, Screen, SidebarPanel, TerminalCanvas,
    TextCanvas, View,
};
use tetris::rules::StandardRules;
use tetris::test_support::sample_snapshot;

#[test]
fn every_tetromino_has_its_own_colour_so_the_stack_stays_readable() {
    let colors: HashSet<Color> = Tetromino::ALL.iter().map(|&p| Color::of(p)).collect();
    assert_eq!(colors.len(), Tetromino::ALL.len());
}

#[test]
fn no_piece_is_drawn_in_the_dim_colour_reserved_for_the_ghost() {
    assert!(Tetromino::ALL.iter().all(|&p| Color::of(p) != Color::Dim));
}

#[test]
fn no_piece_borrows_the_plain_default_colour_used_for_chrome() {
    assert!(
        Tetromino::ALL
            .iter()
            .all(|&p| Color::of(p) != Color::Default)
    );
}

#[test]
fn the_mirror_pieces_are_told_apart_by_colour() {
    assert_ne!(Color::of(Tetromino::S), Color::of(Tetromino::Z));
}

#[test]
fn a_new_canvas_is_entirely_blank() {
    let canvas = TextCanvas::new(4, 2);
    assert_eq!(canvas.to_text(), "    \n    ");
}

#[test]
fn a_glyph_lands_exactly_where_it_was_put() {
    let mut canvas = TextCanvas::new(4, 2);
    canvas.put(2, 1, Glyph::new('#', Color::Red));
    assert_eq!(canvas.glyph(2, 1), Some(Glyph::new('#', Color::Red)));
    assert_eq!(canvas.row(1), "  # ");
}

#[test]
fn writing_off_the_edge_is_ignored_rather_than_wrapping_to_the_next_row() {
    let mut canvas = TextCanvas::new(4, 2);
    canvas.write(2, 0, "abcdef", Color::Default);
    assert_eq!(canvas.row(0), "  ab");
    assert_eq!(canvas.row(1), "    ");
}

#[test]
fn writing_out_of_bounds_never_panics() {
    let mut canvas = TextCanvas::new(4, 2);
    canvas.put(99, 99, Glyph::new('x', Color::Default));
    canvas.write(u16::MAX - 1, 0, "overflow", Color::Default);
    assert_eq!(canvas.to_text(), "    \n    ");
}

#[test]
fn text_is_written_left_to_right_in_one_colour() {
    let mut canvas = TextCanvas::new(6, 1);
    canvas.write(0, 0, "SCORE", Color::Cyan);
    assert_eq!(canvas.row(0), "SCORE ");
    assert_eq!(canvas.glyph(4, 0).map(|g| g.color), Some(Color::Cyan));
}

#[test]
fn presenting_an_in_memory_canvas_succeeds_and_keeps_its_contents() {
    let mut canvas = TextCanvas::new(3, 1);
    canvas.write(0, 0, "abc", Color::Default);
    canvas.present().unwrap();
    assert_eq!(canvas.row(0), "abc");
}

#[test]
fn clearing_returns_the_canvas_to_blank_so_frames_do_not_smear() {
    let mut canvas = TextCanvas::new(3, 1);
    canvas.write(0, 0, "abc", Color::Default);
    canvas.clear();
    assert_eq!(canvas.to_text(), "   ");
}

#[test]
fn a_row_below_the_canvas_reads_as_empty_and_a_glyph_off_it_as_none() {
    let canvas = TextCanvas::new(3, 2);
    assert_eq!(canvas.row(2), "");
    assert_eq!(canvas.glyph(3, 0), None);
    assert_eq!(canvas.glyph(0, 0), Some(Glyph::blank()));
}

#[test]
fn a_cloned_canvas_shows_the_same_picture() {
    let mut canvas = TextCanvas::new(3, 2);
    canvas.write(0, 1, "xyz", Color::Blue);
    let copy = canvas.clone();
    assert_eq!(copy, canvas);
    assert_eq!(copy.to_text(), "   \nxyz");
}

#[test]
fn a_box_surrounds_an_interior_of_the_requested_size() {
    let mut canvas = TextCanvas::new(6, 4);
    draw_box(&mut canvas, 0, 0, 4, 2, "");
    assert_eq!(canvas.row(0), "┌────┐");
    assert_eq!(canvas.row(1), "│    │");
    assert_eq!(canvas.row(3), "└────┘");
}

#[test]
fn the_interior_is_left_blank_for_the_caller_to_fill() {
    let mut canvas = TextCanvas::new(6, 4);
    draw_box(&mut canvas, 0, 0, 4, 2, "");
    for x in 1..5 {
        assert_eq!(canvas.glyph(x, 1).map(|g| g.ch), Some(' '));
    }
}

#[test]
fn a_title_is_written_into_the_top_border() {
    let mut canvas = TextCanvas::new(10, 3);
    draw_box(&mut canvas, 0, 0, 8, 1, "NEXT");
    assert!(canvas.row(0).contains("NEXT"));
}

#[test]
fn a_box_drawn_at_an_offset_leaves_the_space_before_it_untouched() {
    let mut canvas = TextCanvas::new(8, 4);
    draw_box(&mut canvas, 2, 1, 4, 1, "");
    assert_eq!(canvas.row(0), "        ");
    assert_eq!(canvas.row(1), "  ┌────┐");
}

#[test]
fn drawing_past_the_edge_is_clipped_rather_than_panicking() {
    let mut canvas = TextCanvas::new(4, 2);
    draw_box(&mut canvas, 0, 0, 100, 100, "TITLE");
    assert_eq!(canvas.row(0).chars().next(), Some('┌'));
}

#[test]
fn a_titled_box_reads_exactly_as_drawn() {
    let mut canvas = TextCanvas::new(10, 3);
    draw_box(&mut canvas, 0, 0, 8, 1, "NEXT");
    assert_eq!(canvas.to_text(), "┌─NEXT───┐\n│        │\n└────────┘");
    assert_eq!(canvas.glyph(0, 0).map(|g| g.color), Some(Color::Dim));
    assert_eq!(canvas.glyph(2, 0).map(|g| g.color), Some(Color::Default));
}

fn painted_board(snapshot: &Snapshot) -> TextCanvas {
    let mut canvas = TextCanvas::new(40, 30);
    BoardPanel::new(0, 0).paint(snapshot, &mut canvas);
    canvas
}

#[test]
fn the_panel_is_wide_enough_for_two_characters_per_board_column() {
    assert_eq!(BoardPanel::width_for(10), 22);
    assert_eq!(BoardPanel::height_for(20), 22);
}

#[test]
fn the_playfield_is_drawn_inside_a_titled_border() {
    let canvas = painted_board(&sample_snapshot());
    assert!(canvas.row(0).contains("TETRIS"));
    assert_eq!(canvas.glyph(0, 0).map(|g| g.ch), Some('┌'));
}

#[test]
fn the_falling_piece_appears_on_the_board() {
    let snapshot = sample_snapshot();
    let canvas = painted_board(&snapshot);
    for cell in snapshot.current.cells() {
        let x = 1 + (cell.x as u16) * BoardPanel::CELL_WIDTH;
        let y = 1 + cell.y as u16;
        assert_eq!(canvas.glyph(x, y).map(|g| g.ch), Some(BoardPanel::FILLED));
    }
}

#[test]
fn the_falling_piece_is_drawn_in_its_own_colour() {
    let snapshot = sample_snapshot();
    let canvas = painted_board(&snapshot);
    let cell = snapshot.current.cells()[0];
    let x = 1 + (cell.x as u16) * BoardPanel::CELL_WIDTH;
    assert_eq!(
        canvas.glyph(x, 1 + cell.y as u16).map(|g| g.color),
        Some(Color::of(snapshot.current.kind))
    );
}

#[test]
fn the_ghost_is_drawn_dimly_so_it_is_never_mistaken_for_the_piece() {
    let snapshot = sample_snapshot();
    let canvas = painted_board(&snapshot);
    let cell = snapshot.ghost_piece.cells()[0];
    let x = 1 + (cell.x as u16) * BoardPanel::CELL_WIDTH;
    let glyph = canvas.glyph(x, 1 + cell.y as u16).unwrap();
    assert_eq!(glyph.ch, BoardPanel::GHOST);
    assert_eq!(glyph.color, Color::Dim);
}

#[test]
fn the_falling_piece_is_drawn_over_the_ghost_where_they_overlap() {
    let mut snapshot = sample_snapshot();
    snapshot.ghost_piece = snapshot.current;
    let canvas = painted_board(&snapshot);
    let cell = snapshot.current.cells()[0];
    let x = 1 + (cell.x as u16) * BoardPanel::CELL_WIDTH;
    assert_eq!(
        canvas.glyph(x, 1 + cell.y as u16).map(|g| g.ch),
        Some(BoardPanel::FILLED)
    );
}

#[test]
fn locked_cells_keep_the_colour_of_the_piece_that_made_them() {
    let mut snapshot = sample_snapshot();
    snapshot
        .board
        .set(Point::new(0, 19), Cell::Filled(Tetromino::Z));
    let canvas = painted_board(&snapshot);
    assert_eq!(
        canvas.glyph(1, 20).map(|g| g.color),
        Some(Color::of(Tetromino::Z))
    );
}

#[test]
fn empty_squares_are_left_blank_so_the_stack_stands_out() {
    let snapshot = sample_snapshot();
    let canvas = painted_board(&snapshot);
    assert_eq!(canvas.glyph(1, 20).map(|g| g.ch), Some(' '));
}

#[test]
fn the_panel_honours_its_offset_and_draws_nothing_above_it() {
    let mut canvas = TextCanvas::new(40, 30);
    BoardPanel::new(3, 2).paint(&sample_snapshot(), &mut canvas);
    assert_eq!(canvas.row(0).trim(), "");
    assert_eq!(canvas.glyph(3, 2).map(|g| g.ch), Some('┌'));
}

#[test]
fn each_board_square_takes_two_columns_of_the_same_glyph() {
    let mut snapshot = sample_snapshot();
    snapshot
        .board
        .set(Point::new(4, 10), Cell::Filled(Tetromino::L));
    let canvas = painted_board(&snapshot);
    let left = canvas.glyph(9, 11).unwrap();
    assert_eq!(left, Glyph::new('█', Color::White));
    assert_eq!(canvas.glyph(10, 11), Some(left));
    assert_eq!(canvas.glyph(11, 11), Some(Glyph::blank()));
}

fn painted_sidebar(snapshot: &Snapshot) -> TextCanvas {
    let mut canvas = TextCanvas::new(30, 30);
    SidebarPanel::new(0, 0).paint(snapshot, &mut canvas);
    canvas
}

#[test]
fn every_running_total_is_labelled_on_screen() {
    let text = painted_sidebar(&sample_snapshot()).to_text();
    for label in ["SCORE", "LINES", "LEVEL", "PIECES"] {
        assert!(text.contains(label), "{label} was not drawn");
    }
}

#[test]
fn the_score_shown_is_the_score_in_the_snapshot() {
    let mut snapshot = sample_snapshot();
    snapshot.stats.score = 12_345;
    assert!(painted_sidebar(&snapshot).to_text().contains("12345"));
}

#[test]
fn a_changed_total_changes_what_is_drawn() {
    let before = painted_sidebar(&sample_snapshot()).to_text();
    let mut snapshot = sample_snapshot();
    snapshot.stats.lines = 7;
    assert_ne!(painted_sidebar(&snapshot).to_text(), before);
}

#[test]
fn the_upcoming_pieces_are_listed_by_letter() {
    let snapshot = sample_snapshot();
    let text = painted_sidebar(&snapshot).to_text();
    for kind in snapshot.next.iter().take(SidebarPanel::PREVIEW) {
        assert!(
            text.contains(kind.letter()),
            "{kind:?} missing from preview"
        );
    }
}

#[test]
fn each_upcoming_piece_is_swatched_in_its_own_colour() {
    let mut snapshot = sample_snapshot();
    snapshot.next = vec![Tetromino::Z];
    let canvas = painted_sidebar(&snapshot);
    assert_eq!(
        canvas.glyph(3, 11).map(|g| g.color),
        Some(Color::of(Tetromino::Z))
    );
}

#[test]
fn the_preview_is_capped_so_a_long_queue_cannot_overflow_the_panel() {
    let mut snapshot = sample_snapshot();
    snapshot.next = vec![Tetromino::Z; 50];
    let canvas = painted_sidebar(&snapshot);
    let drawn = (0..30).filter(|&y| canvas.row(y).contains('Z')).count();
    assert!(drawn <= SidebarPanel::PREVIEW);
}

#[test]
fn an_empty_queue_still_draws_a_next_box_rather_than_collapsing() {
    let mut snapshot = sample_snapshot();
    snapshot.next.clear();
    assert!(painted_sidebar(&snapshot).to_text().contains("NEXT"));
}

#[test]
fn the_panel_fits_inside_its_declared_width() {
    let canvas = painted_sidebar(&sample_snapshot());
    for y in 0..20 {
        let row = canvas.row(y);
        let used = row.trim_end().chars().count();
        assert!(
            used <= usize::from(SidebarPanel::WIDTH),
            "row {y} used {used} columns"
        );
    }
}

#[test]
fn a_total_is_right_aligned_against_the_inner_edge() {
    let mut snapshot = sample_snapshot();
    snapshot.stats.score = 907;
    let canvas = painted_sidebar(&snapshot);
    assert_eq!(canvas.row(2), "│         907│                ");
    assert_eq!(canvas.row(1), "│ SCORE      │                ");
}

#[test]
fn numbers_are_written_in_plain_decimal() {
    assert_eq!(decimal_text(0), "0");
    assert_eq!(decimal_text(7), "7");
    assert_eq!(decimal_text(10), "10");
    assert_eq!(decimal_text(12_345), "12345");
    assert_eq!(decimal_text(u32::MAX), "4294967295");
}

fn painted_help() -> TextCanvas {
    let mut canvas = TextCanvas::new(HelpPanel::width() + 4, 2);
    HelpPanel::new(0, 0).paint(&sample_snapshot(), &mut canvas);
    canvas
}

#[test]
fn every_bound_key_is_mentioned_so_the_player_is_never_stuck() {
    let text = painted_help().to_text();
    for hint in ["move", "turn", "drop", "pause", "restart", "quit"] {
        assert!(text.contains(hint), "{hint} is not documented on screen");
    }
}

#[test]
fn the_hints_are_dimmed_so_they_do_not_compete_with_the_board() {
    assert_eq!(painted_help().glyph(0, 0).map(|g| g.color), Some(Color::Dim));
}

#[test]
fn the_declared_width_matches_what_is_actually_drawn() {
    let canvas = painted_help();
    let used = u16::try_from(canvas.row(0).trim_end().chars().count()).unwrap();
    assert_eq!(used, HelpPanel::width());
}

#[test]
fn the_hints_do_not_depend_on_the_state_of_the_game() {
    let mut canvas = TextCanvas::new(HelpPanel::width() + 4, 2);
    let mut snapshot = sample_snapshot();
    snapshot.stats.score = 999;
    snapshot.phase = Phase::Over;
    HelpPanel::new(0, 0).paint(&snapshot, &mut canvas);
    assert_eq!(canvas.to_text(), painted_help().to_text());
}

fn painted_overlay(phase: Phase) -> TextCanvas {
    let mut snapshot = sample_snapshot();
    snapshot.phase = phase;
    let mut canvas = TextCanvas::new(30, 22);
    OverlayPanel::new(0, 0, 22, 20).paint(&snapshot, &mut canvas);
    canvas
}

#[test]
fn nothing_is_drawn_while_the_game_is_running() {
    assert_eq!(painted_overlay(Phase::Playing).to_text().trim(), "");
}

#[test]
fn pausing_says_so_and_tells_the_player_how_to_resume() {
    let text = painted_overlay(Phase::Paused).to_text();
    assert!(text.contains("PAUSED"));
    assert!(text.contains("resume"));
}

#[test]
fn a_finished_game_says_so_and_tells_the_player_how_to_start_again() {
    let text = painted_overlay(Phase::Over).to_text();
    assert!(text.contains("GAME OVER"));
    assert!(text.contains("restart"));
}

#[test]
fn the_two_banners_are_coloured_differently_so_they_are_not_confused() {
    assert_ne!(
        OverlayPanel::message(Phase::Paused).map(|m| m.2),
        OverlayPanel::message(Phase::Over).map(|m| m.2)
    );
}

#[test]
fn the_banner_is_centred_rather_than_pinned_to_the_left_edge() {
    let canvas = painted_overlay(Phase::Paused);
    let row = (0..22).find(|&y| canvas.row(y).contains("PAUSED")).unwrap();
    let text = canvas.row(row);
    let leading = text.len() - text.trim_start().len();
    assert!(leading > 0, "banner was flush left");
}

#[test]
fn the_banner_sits_within_the_region_it_was_given() {
    let canvas = painted_overlay(Phase::Over);
    for y in 0..22 {
        let row = canvas.row(y);
        assert!(row.trim_end().chars().count() <= 22, "row {y} overflowed");
    }
}

#[test]
fn the_banner_title_and_hint_sit_on_the_middle_rows() {
    let canvas = painted_overlay(Phase::Paused);
    assert_eq!(canvas.row(10).trim_end(), "        PAUSED");
    assert_eq!(canvas.row(11).trim_end(), "     p to resume");
    assert_eq!(canvas.glyph(8, 10).map(|g| g.color), Some(Color::Yellow));
    assert_eq!(canvas.glyph(5, 11).map(|g| g.color), Some(Color::Dim));
}

fn painted_screen(snapshot: &Snapshot) -> TextCanvas {
    let columns = u16::try_from(snapshot.board.width()).unwrap();
    let rows = u16::try_from(snapshot.board.height()).unwrap();
    let (width, height) = Screen::required_size(columns, rows);
    let mut canvas = TextCanvas::new(width, height);
    Screen::for_board(columns, rows).paint(snapshot, &mut canvas);
    canvas
}

#[test]
fn the_whole_screen_fits_in_the_size_it_asks_for() {
    let canvas = painted_screen(&sample_snapshot());
    for y in 0..canvas.height() {
        let used = canvas.row(y).trim_end().chars().count();
        assert!(used <= usize::from(canvas.width()), "row {y} overflowed");
    }
}

#[test]
fn a_standard_board_asks_for_a_terminal_most_people_already_have() {
    let (width, height) = Screen::required_size(10, 20);
    assert!(width <= 80, "needs {width} columns");
    assert!(height <= 24, "needs {height} rows");
}

#[test]
fn a_standard_board_asks_for_exactly_sixty_seven_by_twenty_four() {
    assert_eq!(Screen::required_size(10, 20), (67, 24));
    assert_eq!(Screen::required_size(30, 20), (79, 24));
}

#[test]
fn every_panel_shows_up_on_the_composed_screen() {
    let text = painted_screen(&sample_snapshot()).to_text();
    for marker in ["TETRIS", "STATS", "NEXT", "quit"] {
        assert!(text.contains(marker), "{marker} is missing from the screen");
    }
}

#[test]
fn the_sidebar_sits_beside_the_board_rather_than_on_top_of_it() {
    let layout = Screen::for_board(10, 20);
    assert!(layout.sidebar.x >= layout.board.x + BoardPanel::width_for(10));
}

#[test]
fn the_hints_sit_below_the_board_rather_than_over_it() {
    let layout = Screen::for_board(10, 20);
    assert!(layout.help.y >= layout.board.y + BoardPanel::height_for(20));
}

#[test]
fn the_pause_banner_is_painted_over_the_board_not_hidden_behind_it() {
    let mut snapshot = sample_snapshot();
    snapshot.phase = Phase::Paused;
    assert!(painted_screen(&snapshot).to_text().contains("PAUSED"));
}

#[test]
fn a_larger_board_is_given_a_larger_screen() {
    let (small, _) = Screen::required_size(10, 20);
    let (large, _) = Screen::required_size(30, 20);
    assert!(large > small, "{small} did not grow to {large}");
}

#[test]
fn the_layout_adapts_to_a_non_standard_board_without_clipping() {
    let engine = Engine::new(tetris::board::Board::new(6, 12), StandardRules::seeded(1));
    let canvas = painted_screen(&engine.snapshot());
    assert!(canvas.to_text().contains("TETRIS"));
}

struct Mark(u16, char);

impl View for Mark {
    fn paint<C: Canvas>(&self, _snapshot: &Snapshot, canvas: &mut C) {
        canvas.put(self.0, 0, Glyph::new(self.1, Color::Default));
    }
}

#[test]
fn a_list_of_views_paints_every_one_of_them() {
    let mut canvas = TextCanvas::new(4, 1);
    vec![Mark(0, 'a'), Mark(2, 'c')].paint(&sample_snapshot(), &mut canvas);
    assert_eq!(canvas.row(0), "a c ");
}

#[test]
fn later_views_paint_over_earlier_ones_so_overlays_win() {
    let mut canvas = TextCanvas::new(2, 1);
    vec![Mark(0, 'a'), Mark(0, 'z')].paint(&sample_snapshot(), &mut canvas);
    assert_eq!(canvas.row(0), "z ");
}

#[test]
fn an_empty_composition_draws_nothing_at_all() {
    let mut canvas = TextCanvas::new(3, 1);
    Vec::<Mark>::new().paint(&sample_snapshot(), &mut canvas);
    assert_eq!(canvas.row(0), "   ");
}

#[test]
fn a_borrowed_view_paints_like_the_view_itself() {
    let mark = Mark(1, 'b');
    let mut canvas = TextCanvas::new(3, 1);
    (&mark).paint(&sample_snapshot(), &mut canvas);
    assert_eq!(canvas.row(0), " b ");
}

fn terminal() -> TerminalCanvas {
    TerminalCanvas::new(10, 4)
}

fn printed(paints: &[Paint]) -> String {
    paints
        .iter()
        .filter_map(|p| match p {
            Paint::Print(ch) => Some(*ch),
            _ => None,
        })
        .collect()
}

#[test]
fn a_fresh_canvas_matches_the_blank_screen_and_writes_almost_nothing() {
    let mut canvas = terminal();
    assert_eq!(canvas.flush(), vec![Paint::ResetColor]);
}

#[test]
fn a_changed_cell_is_written_out() {
    let mut canvas = terminal();
    canvas.write(0, 0, "HI", Color::Cyan);
    let written = printed(&canvas.flush());
    assert!(written.contains('H') && written.contains('I'));
}

#[test]
fn flushing_twice_without_changes_sends_no_new_cells() {
    let mut canvas = terminal();
    canvas.write(0, 0, "HI", Color::Cyan);
    canvas.flush();
    assert_eq!(canvas.flush(), vec![Paint::ResetColor]);
}

#[test]
fn only_the_cells_that_changed_are_redrawn_so_the_board_does_not_flicker() {
    let mut canvas = terminal();
    canvas.write(0, 0, "HELLO", Color::Default);
    canvas.flush();
    canvas.put(0, 0, Glyph::new('J', Color::Default));
    let written = printed(&canvas.flush());
    assert!(written.contains('J'));
    assert!(!written.contains('E'), "an unchanged cell was repainted");
}

#[test]
fn invalidating_forces_a_full_repaint_after_a_resize_or_redraw() {
    let mut canvas = terminal();
    canvas.write(0, 0, "HI", Color::Default);
    canvas.flush();
    canvas.invalidate();
    assert!(printed(&canvas.flush()).contains('H'));
}

#[test]
fn writing_outside_the_canvas_is_ignored_rather_than_panicking() {
    let mut canvas = terminal();
    canvas.put(500, 500, Glyph::new('x', Color::Red));
    assert!(!printed(&canvas.flush()).contains('x'));
}

#[test]
fn resizing_adopts_the_new_dimensions() {
    let mut canvas = terminal();
    canvas.resize(20, 8);
    assert_eq!((canvas.width(), canvas.height()), (20, 8));
}

#[test]
fn a_degenerate_resize_is_ignored_so_the_canvas_stays_usable() {
    let mut canvas = terminal();
    canvas.resize(0, 0);
    assert_eq!((canvas.width(), canvas.height()), (10, 4));
}

#[test]
fn a_flush_moves_sets_the_colour_once_and_prints_each_changed_cell() {
    let mut canvas = terminal();
    canvas.write(3, 1, "ab", Color::Red);
    canvas.put(0, 2, Glyph::new('c', Color::Red));
    assert_eq!(
        canvas.flush(),
        vec![
            Paint::MoveTo(3, 1),
            Paint::SetColor(Color::Red),
            Paint::Print('a'),
            Paint::MoveTo(4, 1),
            Paint::Print('b'),
            Paint::MoveTo(0, 2),
            Paint::Print('c'),
            Paint::ResetColor,
        ]
    );
}

#[test]
fn a_short_board_is_given_room_for_the_whole_sidebar() {
    assert_eq!(Screen::required_size(4, 6), (67, 18));
    let engine = Engine::new(tetris::board::Board::new(4, 6), StandardRules::seeded(1));
    let canvas = painted_screen(&engine.snapshot());
    assert_eq!(canvas.height(), 18);
    assert!(canvas.row(17).contains('└'), "the NEXT box was clipped");
    assert!(canvas.to_text().contains("NEXT"));
}

#[test]
fn nothing_is_painted_beyond_the_required_size() {
    let engine = Engine::new(tetris::board::Board::new(4, 6), StandardRules::seeded(3));
    let (width, height) = Screen::required_size(4, 6);
    let mut canvas = TextCanvas::new(width + 20, height + 10);
    Screen::for_board(4, 6).paint(&engine.snapshot(), &mut canvas);
    for y in 0..canvas.height() {
        let row: Vec<char> = canvas.row(y).chars().collect();
        for (x, ch) in row.iter().enumerate() {
            if x >= width as usize || y >= height {
                assert_eq!(*ch, ' ', "painted at ({x}, {y})");
            }
        }
    }
}

#[test]
fn a_terminal_fits_the_screen_only_when_it_is_at_least_the_required_size() {
    assert_eq!(Screen::required_extent(10, 20), (67, 24));
    assert_eq!(Screen::required_extent(32767, 65535), (65553, 65539));
    assert!(Screen::fits_terminal(10, 20, 80, 24));
    assert!(!Screen::fits_terminal(10, 20, 66, 24));
    assert!(!Screen::fits_terminal(10, 20, 80, 23));
    assert!(!Screen::fits_terminal(32767, 20, u16::MAX, u16::MAX));
}

#[test]
fn presenting_an_in_memory_canvas_succeeds_and_changes_nothing() {
    let mut canvas = TextCanvas::new(4, 2);
    canvas.put(1, 1, Glyph::new('x', Color::Red));
    let before = canvas.to_text();
    assert!(canvas.present().is_ok());
    assert_eq!(canvas.to_text(), before);
}
