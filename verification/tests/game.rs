use std::collections::VecDeque;
use std::time::Duration;
use tetris::board::{Board, Cell, Playfield};
use tetris::game::{Action, Clock, Engine, ManualClock, Phase, Snapshot, Stats};
use tetris::geometry::{Offset, Point, Spin};
use tetris::piece::Tetromino;
use tetris::rules::{
    ClassicGravity, GravityCurve, GuidelineScoring, LevelCurve, LinesPerLevel, Randomizer, RuleSet,
    SimpleKicks, StandardRules,
};
use tetris::test_support::{sample_snapshot, seeded_game};

#[test]
fn a_manual_clock_reports_exactly_what_was_queued() {
    let mut clock = ManualClock::new();
    clock.advance(Duration::from_millis(250));
    assert_eq!(clock.tick(), Duration::from_millis(250));
}

#[test]
fn time_is_consumed_once_so_a_single_advance_cannot_drop_a_piece_twice() {
    let mut clock = ManualClock::new();
    clock.advance(Duration::from_millis(100));
    clock.tick();
    assert_eq!(clock.tick(), Duration::ZERO);
}

#[test]
fn advances_accumulate_until_they_are_read() {
    let mut clock = ManualClock::new();
    clock.advance(Duration::from_millis(30));
    clock.advance(Duration::from_millis(70));
    assert_eq!(clock.tick(), Duration::from_millis(100));
}

#[test]
fn an_untouched_manual_clock_never_advances_the_game() {
    assert_eq!(ManualClock::new().tick(), Duration::ZERO);
}

#[test]
fn the_system_clock_moves_forward_on_its_own() {
    let mut clock = tetris::game::SystemClock::new();
    clock.tick();
    let started = std::time::Instant::now();
    while started.elapsed() < Duration::from_millis(5) {}
    assert!(clock.tick() >= Duration::from_millis(4));
}

#[test]
fn movement_actions_require_a_falling_piece() {
    for action in [
        Action::MoveLeft,
        Action::MoveRight,
        Action::SoftDrop,
        Action::HardDrop,
        Action::Rotate(Spin::Clockwise),
    ] {
        assert!(action.needs_active_piece(), "{action:?}");
    }
}

#[test]
fn quitting_and_restarting_work_even_when_no_piece_is_falling() {
    for action in [Action::Quit, Action::Restart, Action::TogglePause] {
        assert!(!action.needs_active_piece(), "{action:?}");
    }
}

#[test]
fn the_two_rotation_directions_are_distinct_actions() {
    assert_ne!(
        Action::Rotate(Spin::Clockwise),
        Action::Rotate(Spin::CounterClockwise)
    );
}

fn snapshot() -> Snapshot {
    Engine::new(Board::standard(), StandardRules::seeded(4)).snapshot()
}

fn snapshot_of<R: RuleSet>(engine: &Engine<R>) -> Snapshot {
    engine.snapshot()
}

#[test]
fn a_snapshot_reports_the_same_piece_the_engine_is_holding() {
    let engine = Engine::new(Board::standard(), StandardRules::seeded(9));
    assert_eq!(snapshot_of(&engine).current, *engine.current());
}

#[test]
fn the_snapshot_carries_a_full_board_the_renderer_can_walk() {
    let shot = snapshot();
    assert_eq!(shot.board.width(), Board::STANDARD_WIDTH);
    assert_eq!(shot.board.height(), Board::STANDARD_HEIGHT);
}

#[test]
fn a_fresh_snapshot_shows_a_playable_game() {
    let shot = snapshot();
    assert_eq!(shot.phase, Phase::Playing);
    assert_eq!(shot.stats, Stats::default());
}

#[test]
fn the_preview_is_populated_so_the_sidebar_has_something_to_draw() {
    assert!(!snapshot().next.is_empty());
}

#[test]
fn the_ghost_is_worth_drawing_when_it_sits_below_the_falling_piece() {
    let shot = snapshot();
    assert!(shot.ghost_is_visible());
    assert!(shot.ghost_piece.origin.y > shot.current.origin.y);
}

#[test]
fn the_ghost_is_hidden_once_the_piece_has_reached_its_landing_spot() {
    let mut shot = snapshot();
    shot.current = shot.ghost_piece;
    assert!(!shot.ghost_is_visible());
}

#[test]
fn a_snapshot_does_not_change_when_the_game_moves_on() {
    let mut engine = Engine::new(Board::standard(), StandardRules::seeded(1));
    let before = engine.snapshot();
    engine.apply(Action::MoveLeft);
    assert_eq!(
        before.current.origin,
        engine.current().origin.shifted(Offset::right())
    );
}

#[test]
fn a_new_game_is_playing_with_everything_at_zero() {
    assert_eq!(Phase::default(), Phase::Playing);
    assert_eq!(
        Stats::default(),
        Stats {
            score: 0,
            lines: 0,
            level: 0,
            pieces: 0
        }
    );
}

#[test]
fn only_the_playing_phase_lets_gravity_advance() {
    assert!(Phase::Playing.is_running());
    assert!(!Phase::Paused.is_running());
    assert!(!Phase::Over.is_running());
}

#[test]
fn pausing_and_unpausing_returns_to_play() {
    assert_eq!(
        Phase::Playing.toggled_pause().toggled_pause(),
        Phase::Playing
    );
}

#[test]
fn a_finished_game_cannot_be_unpaused_back_into_play() {
    assert_eq!(Phase::Over.toggled_pause(), Phase::Over);
}

#[test]
fn the_score_saturates_rather_than_wrapping_to_zero_on_a_long_game() {
    let mut stats = Stats {
        score: u32::MAX,
        ..Stats::default()
    };
    stats.add_score(500);
    assert_eq!(stats.score, u32::MAX);
}

#[test]
fn totals_accumulate_across_several_clears() {
    let mut stats = Stats::default();
    stats.add_lines(4);
    stats.add_lines(2);
    stats.add_piece();
    assert_eq!((stats.lines, stats.pieces), (6, 1));
}

#[derive(Debug, Clone)]
struct ScriptedBag {
    script: VecDeque<Tetromino>,
    fallback: Tetromino,
}

impl Randomizer for ScriptedBag {
    fn next_piece(&mut self) -> Tetromino {
        self.script.pop_front().unwrap_or(self.fallback)
    }

    fn peek(&self, count: usize) -> Vec<Tetromino> {
        self.script.iter().copied().take(count).collect()
    }
}

#[derive(Debug, Clone)]
struct ScriptedRules {
    randomizer: ScriptedBag,
    scoring: GuidelineScoring,
    gravity: ClassicGravity,
    level: LinesPerLevel,
    kicks: SimpleKicks,
}

impl RuleSet for ScriptedRules {
    type Randomizer = ScriptedBag;
    type Scoring = GuidelineScoring;
    type Gravity = ClassicGravity;
    type Level = LinesPerLevel;
    type Kicks = SimpleKicks;

    fn randomizer(&mut self) -> &mut Self::Randomizer {
        &mut self.randomizer
    }
    fn peek_randomizer(&self) -> &Self::Randomizer {
        &self.randomizer
    }
    fn scoring(&self) -> &Self::Scoring {
        &self.scoring
    }
    fn gravity(&self) -> &Self::Gravity {
        &self.gravity
    }
    fn level(&self) -> &Self::Level {
        &self.level
    }
    fn kicks(&self) -> &Self::Kicks {
        &self.kicks
    }
}

fn scripted(pieces: &[Tetromino]) -> ScriptedRules {
    ScriptedRules {
        randomizer: ScriptedBag {
            script: pieces.iter().copied().collect(),
            fallback: Tetromino::O,
        },
        scoring: GuidelineScoring,
        gravity: ClassicGravity::default(),
        level: LinesPerLevel::default(),
        kicks: SimpleKicks,
    }
}

fn engine_of(pieces: &[Tetromino], width: i16, height: i16) -> Engine<ScriptedRules> {
    Engine::new(Board::new(width, height), scripted(pieces))
}

fn standard(pieces: &[Tetromino]) -> Engine<ScriptedRules> {
    engine_of(pieces, Board::STANDARD_WIDTH, Board::STANDARD_HEIGHT)
}

fn gravity_step(engine: &Engine<ScriptedRules>) -> Duration {
    ClassicGravity::default().interval(engine.stats().level)
}

#[test]
fn a_new_game_is_playing_with_a_piece_already_falling() {
    let engine = standard(&[Tetromino::T]);
    assert_eq!(engine.phase(), Phase::Playing);
    assert_eq!(engine.current().kind, Tetromino::T);
    assert_eq!(engine.stats(), Stats::default());
}

#[test]
fn a_piece_spawns_horizontally_centred_so_both_sides_stay_reachable() {
    let engine = standard(&[Tetromino::O]);
    let columns: Vec<i16> = engine.current().cells().iter().map(|c| c.x).collect();
    let left = columns.iter().min().copied().unwrap();
    let right = columns.iter().max().copied().unwrap();
    assert_eq!(left, Board::STANDARD_WIDTH - 1 - right);
}

#[test]
fn moving_left_and_right_shifts_the_piece_by_one_column() {
    let mut engine = standard(&[Tetromino::O]);
    let start = engine.current().origin;
    engine.apply(Action::MoveLeft);
    assert_eq!(engine.current().origin, start.shifted(Offset::left()));
    engine.apply(Action::MoveRight);
    assert_eq!(engine.current().origin, start);
}

#[test]
fn the_wall_stops_a_piece_instead_of_letting_it_leave_the_board() {
    let mut engine = standard(&[Tetromino::O]);
    for _ in 0..20 {
        engine.apply(Action::MoveLeft);
    }
    assert!(engine.current().cells().iter().all(|c| c.x >= 0));
    let pinned = engine.current().origin;
    engine.apply(Action::MoveLeft);
    assert_eq!(engine.current().origin, pinned);
}

#[test]
fn rotating_changes_the_footprint_of_an_asymmetric_piece() {
    let mut engine = standard(&[Tetromino::T]);
    let before = engine.current().cells();
    engine.apply(Action::Rotate(Spin::Clockwise));
    assert_ne!(engine.current().cells(), before);
}

#[test]
fn a_piece_can_still_rotate_while_flush_against_the_wall() {
    let mut engine = standard(&[Tetromino::I]);
    for _ in 0..20 {
        engine.apply(Action::MoveLeft);
    }
    engine.apply(Action::Rotate(Spin::Clockwise));
    assert_eq!(engine.current().rotation.quarter_turns(), 1);
    assert!(engine.current().cells().iter().all(|c| c.x >= 0));
}

#[test]
fn a_rotation_with_nowhere_to_go_is_refused_rather_than_overlapping_the_stack() {
    let spawned = engine_of(&[Tetromino::I], 4, 4);
    let mut board = Board::new(4, 4);
    for row in 0..4 {
        for x in 0..4 {
            if !spawned.current().cells().contains(&Point::new(x, row)) {
                board.set(Point::new(x, row), Cell::Filled(Tetromino::Z));
            }
        }
    }
    let mut engine = Engine::new(board, scripted(&[Tetromino::I]));
    assert_eq!(*engine.current(), *spawned.current());
    let before = *engine.current();
    engine.apply(Action::Rotate(Spin::Clockwise));
    assert_eq!(*engine.current(), before);
}

#[test]
fn gravity_pulls_the_piece_down_one_row_per_interval() {
    let mut engine = standard(&[Tetromino::O]);
    let start = engine.current().origin.y;
    engine.tick(gravity_step(&engine));
    assert_eq!(engine.current().origin.y, start + 1);
}

#[test]
fn a_long_frame_applies_every_gravity_step_it_was_owed() {
    let mut engine = standard(&[Tetromino::O]);
    let start = engine.current().origin.y;
    engine.tick(gravity_step(&engine) * 3);
    assert_eq!(engine.current().origin.y, start + 3);
}

#[test]
fn partial_time_accumulates_instead_of_being_thrown_away() {
    let mut engine = standard(&[Tetromino::O]);
    let start = engine.current().origin.y;
    let half = gravity_step(&engine) / 2;
    engine.tick(half);
    assert_eq!(engine.current().origin.y, start);
    engine.tick(half);
    assert_eq!(engine.current().origin.y, start + 1);
}

#[test]
fn a_paused_game_ignores_both_gravity_and_movement() {
    let mut engine = standard(&[Tetromino::O]);
    engine.apply(Action::TogglePause);
    let frozen = *engine.current();
    engine.tick(gravity_step(&engine) * 5);
    engine.apply(Action::MoveLeft);
    assert_eq!(*engine.current(), frozen);
    assert_eq!(engine.phase(), Phase::Paused);
}

#[test]
fn unpausing_lets_the_game_continue_from_where_it_stopped() {
    let mut engine = standard(&[Tetromino::O]);
    engine.apply(Action::TogglePause);
    engine.apply(Action::TogglePause);
    let before = engine.current().origin.y;
    engine.tick(gravity_step(&engine));
    assert_eq!(engine.current().origin.y, before + 1);
}

#[test]
fn a_hard_drop_lands_the_piece_on_the_floor_and_locks_it() {
    let mut engine = standard(&[Tetromino::O, Tetromino::T]);
    engine.apply(Action::HardDrop);
    assert_eq!(engine.stats().pieces, 1);
    assert_eq!(engine.current().kind, Tetromino::T);
    assert!(!engine.board().is_row_empty(Board::STANDARD_HEIGHT - 1));
}

#[test]
fn a_hard_drop_pays_for_the_distance_actually_fallen() {
    let mut engine = standard(&[Tetromino::O, Tetromino::O]);
    engine.apply(Action::HardDrop);
    assert!(engine.stats().score > 0);
}

#[test]
fn a_hard_drop_pays_two_points_for_each_row_fallen() {
    let mut engine = standard(&[Tetromino::O, Tetromino::O]);
    engine.apply(Action::HardDrop);
    assert_eq!(engine.stats().score, 36);
}

#[test]
fn a_soft_drop_moves_one_row_and_earns_a_smaller_reward() {
    let mut engine = standard(&[Tetromino::O, Tetromino::O]);
    let start = engine.current().origin.y;
    engine.apply(Action::SoftDrop);
    assert_eq!(engine.current().origin.y, start + 1);
    assert_eq!(engine.stats().score, 1);
}

#[test]
fn a_soft_drop_against_the_floor_locks_the_piece() {
    let mut engine = engine_of(&[Tetromino::O, Tetromino::O], 4, 3);
    for _ in 0..10 {
        engine.apply(Action::SoftDrop);
    }
    assert!(engine.stats().pieces >= 1);
}

#[test]
fn pieces_stack_on_each_other_rather_than_passing_through() {
    let mut engine = engine_of(&[Tetromino::O, Tetromino::O, Tetromino::O], 4, 10);
    engine.apply(Action::HardDrop);
    engine.apply(Action::HardDrop);
    assert!(!engine.board().is_row_empty(8));
    assert!(!engine.board().is_row_empty(6));
}

#[test]
fn filling_a_row_clears_it_and_awards_points() {
    let mut engine = engine_of(&[Tetromino::O, Tetromino::O, Tetromino::T], 4, 6);
    engine.apply(Action::MoveLeft);
    engine.apply(Action::MoveLeft);
    engine.apply(Action::HardDrop);
    engine.apply(Action::MoveRight);
    engine.apply(Action::MoveRight);
    engine.apply(Action::HardDrop);
    assert_eq!(engine.stats().lines, 2);
    assert!(engine.stats().score >= 300);
}

#[test]
fn clearing_enough_rows_advances_the_level_and_speeds_the_game_up() {
    let engine = standard(&[Tetromino::O]);
    let fast = ClassicGravity::default();
    let mut stats = engine.stats();
    stats.lines = 30;
    stats.level = LinesPerLevel::default().level_for(30);
    assert_eq!(stats.level, 3);
    assert!(fast.interval(stats.level) < fast.interval(0));
}

#[test]
fn the_game_ends_when_a_new_piece_cannot_fit() {
    let mut engine = engine_of(&[Tetromino::O; 12], 4, 4);
    for _ in 0..6 {
        engine.apply(Action::HardDrop);
    }
    assert!(engine.phase().is_over());
}

#[test]
fn a_finished_game_ignores_movement_but_still_accepts_a_restart() {
    let mut engine = engine_of(&[Tetromino::O; 12], 4, 4);
    for _ in 0..6 {
        engine.apply(Action::HardDrop);
    }
    let frozen = *engine.current();
    engine.apply(Action::MoveLeft);
    assert_eq!(*engine.current(), frozen);
    engine.apply(Action::Restart);
    assert_eq!(engine.phase(), Phase::Playing);
}

#[test]
fn restarting_wipes_the_board_and_the_score() {
    let mut engine = standard(&[Tetromino::O, Tetromino::O, Tetromino::O]);
    engine.apply(Action::HardDrop);
    engine.apply(Action::Restart);
    assert_eq!(engine.stats(), Stats::default());
    assert!((0..Board::STANDARD_HEIGHT).all(|row| engine.board().is_row_empty(row)));
}

#[test]
fn the_ghost_shows_the_landing_spot_without_moving_the_real_piece() {
    let engine = standard(&[Tetromino::O]);
    let ghost = engine.ghost_piece();
    assert_eq!(ghost.kind, engine.current().kind);
    assert!(ghost.origin.y > engine.current().origin.y);
    assert_eq!(engine.current().origin.y, 0);
}

#[test]
fn a_hard_drop_puts_the_piece_exactly_where_the_ghost_promised() {
    let mut engine = standard(&[Tetromino::T, Tetromino::T]);
    engine.apply(Action::MoveLeft);
    let promised = engine.ghost_piece().cells();
    engine.apply(Action::HardDrop);
    for cell in promised {
        assert!(engine.board().cell(cell).is_some_and(Cell::is_filled));
    }
}

#[test]
fn the_preview_lists_the_pieces_that_actually_arrive_next() {
    let script = [Tetromino::I, Tetromino::S, Tetromino::Z, Tetromino::L];
    let mut engine = standard(&script);
    assert_eq!(engine.next_pieces(3), script[1..4].to_vec());
    engine.apply(Action::HardDrop);
    assert_eq!(engine.current().kind, Tetromino::S);
}

#[test]
fn quitting_is_not_the_engines_business_and_changes_nothing() {
    let mut engine = standard(&[Tetromino::T]);
    let before = engine.clone();
    engine.apply(Action::Quit);
    assert_eq!(engine.phase(), before.phase());
    assert_eq!(*engine.current(), *before.current());
}

#[test]
fn the_piece_count_rises_by_exactly_one_per_lock() {
    let mut engine = standard(&[Tetromino::O; 6]);
    for expected in 1..=4 {
        engine.apply(Action::HardDrop);
        assert_eq!(engine.stats().pieces, expected);
    }
}

#[test]
fn the_score_never_drops_during_play() {
    let mut engine = standard(&[Tetromino::O, Tetromino::T, Tetromino::I, Tetromino::S]);
    let mut last = engine.stats().score;
    for action in [
        Action::SoftDrop,
        Action::MoveLeft,
        Action::HardDrop,
        Action::Rotate(Spin::Clockwise),
        Action::HardDrop,
        Action::TogglePause,
        Action::TogglePause,
        Action::HardDrop,
    ] {
        engine.apply(action);
        engine.tick(Duration::from_millis(900));
        assert!(engine.stats().score >= last, "{action:?} lowered the score");
        last = engine.stats().score;
    }
}

#[test]
fn pausing_twice_gives_back_the_same_game() {
    let mut engine = standard(&[Tetromino::T, Tetromino::O]);
    engine.apply(Action::SoftDrop);
    let before = engine.snapshot();
    engine.apply(Action::TogglePause);
    engine.apply(Action::TogglePause);
    assert_eq!(engine.snapshot(), before);
}

#[test]
fn the_falling_piece_always_fits_while_the_game_runs() {
    let mut engine = standard(&[Tetromino::I; 40]);
    for step in 0..120 {
        let action = match step % 5 {
            0 => Action::MoveLeft,
            1 => Action::Rotate(Spin::Clockwise),
            2 => Action::MoveRight,
            3 => Action::SoftDrop,
            _ => Action::HardDrop,
        };
        engine.apply(action);
        engine.tick(Duration::from_millis(300));
        if !engine.phase().is_over() {
            assert!(engine.board().accepts(engine.current()));
        }
    }
}

#[test]
fn the_fixture_game_is_ready_to_play() {
    assert_eq!(seeded_game(1).phase(), Phase::Playing);
}

#[test]
fn the_fixture_is_reproducible_so_tests_do_not_flake() {
    assert_eq!(sample_snapshot(), sample_snapshot());
}

#[test]
fn a_restart_brings_in_the_first_previewed_piece() {
    let mut engine = standard(&[Tetromino::T, Tetromino::O, Tetromino::I, Tetromino::L]);
    engine.apply(Action::HardDrop);
    let previewed = engine.next_pieces(1)[0];
    assert_eq!(previewed, Tetromino::I);
    engine.apply(Action::Restart);
    assert_eq!(engine.current().kind, previewed);
    assert_eq!(engine.phase(), Phase::Playing);
}

#[test]
fn a_hard_drop_brings_in_the_first_previewed_piece_of_a_seeded_game() {
    let mut engine = seeded_game(7);
    let previewed = engine.next_pieces(3);
    engine.apply(Action::HardDrop);
    assert_eq!(engine.current().kind, previewed[0]);
    assert_eq!(engine.next_pieces(2), previewed[1..].to_vec());
}

#[test]
fn two_ticks_without_a_lock_act_as_one_tick_of_their_sum() {
    let mut split = standard(&[Tetromino::T, Tetromino::O]);
    let mut whole = standard(&[Tetromino::T, Tetromino::O]);
    let step = gravity_step(&split);
    split.tick(step * 2 + step / 3);
    split.tick(step + step / 2);
    whole.tick(step * 4 - step / 6);
    assert_eq!(*split.current(), *whole.current());
    assert_eq!(split.current().origin.y, 3);
    assert_eq!(split.stats(), whole.stats());
}

#[test]
fn the_fixture_snapshot_shows_a_fresh_seeded_game() {
    let shot = sample_snapshot();
    assert_eq!(shot, seeded_game(2026).snapshot());
    assert_eq!(shot.next.len(), 5);
    assert!(shot.ghost_is_visible());
    assert_eq!(shot.stats, Stats::default());
    assert!((0..Board::STANDARD_HEIGHT).all(|row| shot.board.is_row_empty(row)));
}

#[test]
fn after_a_hard_drop_a_seeded_game_falls_one_row_in_eight_hundred_milliseconds() {
    let mut engine = seeded_game(42);
    engine.apply(Action::MoveLeft);
    engine.apply(Action::HardDrop);
    let spawned = *engine.current();
    engine.tick(Duration::from_millis(800));
    let shot = engine.snapshot();
    assert_eq!(shot.stats.pieces, 1);
    assert!(shot.stats.score > 0);
    assert_eq!(engine.current().origin.y, spawned.origin.y + 1);
}

#[test]
fn a_seeded_game_levels_up_every_ten_lines() {
    let engine = seeded_game(5);
    assert_eq!(engine.stats().level, LinesPerLevel::default().level_for(engine.stats().lines));
    assert_eq!(LinesPerLevel::default().level_for(10), 1);
    assert_eq!(LinesPerLevel::default().level_for(1000), 29);
}

#[test]
fn three_ticks_without_a_lock_act_as_one_tick_of_their_sum() {
    let mut split = standard(&[Tetromino::T, Tetromino::O]);
    let mut whole = standard(&[Tetromino::T, Tetromino::O]);
    let step = gravity_step(&split);
    split.tick(step / 2);
    split.tick(step);
    split.tick(step * 3);
    whole.tick(step / 2 + step + step * 3);
    assert_eq!(*split.current(), *whole.current());
    assert_eq!(split.current().origin.y, 4);
}

#[test]
fn a_standard_game_always_has_six_pieces_queued() {
    let mut engine = seeded_game(11);
    for _ in 0..30 {
        assert_eq!(engine.next_pieces(6).len(), 6);
        engine.apply(Action::HardDrop);
        if engine.phase().is_over() {
            engine.apply(Action::Restart);
        }
    }
}
