use std::time::Duration;
use tetris::app::{Config, Flow, GameLoop, USAGE};
use tetris::board::{Board, Playfield};
use tetris::game::{Action, Engine, ManualClock, Phase};
use tetris::geometry::Offset;
use tetris::input::ScriptedInput;
use tetris::render::{Screen, TextCanvas};
use tetris::rules::{ClassicGravity, GravityCurve, StandardRules, XorShift64};

fn parse_args(args: &[&str]) -> Result<Config, String> {
    Config::from_args(args.iter().map(|s| (*s).to_owned()).collect())
}

#[test]
fn no_arguments_gives_a_standard_game() {
    let config = parse_args(&[]).unwrap();
    assert_eq!(config, Config::default());
    assert_eq!(config.board().width(), Board::STANDARD_WIDTH);
}

#[test]
fn a_seed_makes_the_piece_sequence_reproducible() {
    assert_eq!(parse_args(&["--seed", "42"]).unwrap().seed, Some(42));
}

#[test]
fn the_board_size_can_be_chosen() {
    let config = parse_args(&["--columns", "8", "--rows", "16"]).unwrap();
    assert_eq!((config.columns, config.rows), (8, 16));
}

#[test]
fn an_unknown_flag_is_reported_rather_than_ignored() {
    let error = parse_args(&["--turbo"]).unwrap_err();
    assert!(error.contains("--turbo"), "{error}");
}

#[test]
fn a_flag_without_a_value_is_reported() {
    let error = parse_args(&["--seed"]).unwrap_err();
    assert!(error.contains("needs a value"), "{error}");
}

#[test]
fn a_value_that_is_not_a_number_is_reported_with_the_offending_text() {
    let error = parse_args(&["--rows", "tall"]).unwrap_err();
    assert!(error.contains("tall"), "{error}");
}

#[test]
fn a_board_too_narrow_to_hold_a_piece_is_refused() {
    assert!(parse_args(&["--columns", "3"]).is_err());
}

#[test]
fn a_board_too_short_to_play_on_is_refused() {
    assert!(parse_args(&["--rows", "2"]).is_err());
}

#[test]
fn the_usage_text_documents_every_flag_that_is_accepted() {
    for flag in ["--seed", "--columns", "--rows"] {
        assert!(USAGE.contains(flag), "{flag} is undocumented");
    }
}

#[test]
fn the_usage_text_is_what_help_would_print() {
    assert!(USAGE.contains("tetris-tui"));
}

#[test]
fn each_kind_of_bad_argument_gets_its_own_exact_message() {
    assert_eq!(parse_args(&["--turbo"]).unwrap_err(), "unknown argument: --turbo");
    assert_eq!(parse_args(&["--rows"]).unwrap_err(), "--rows needs a value");
    assert_eq!(
        parse_args(&["--seed", "-1"]).unwrap_err(),
        "--seed got an invalid value: -1"
    );
    assert_eq!(parse_args(&["--columns", "3"]).unwrap_err(), "--columns must be at least 4");
    assert_eq!(parse_args(&["--rows", "5"]).unwrap_err(), "--rows must be at least 6");
}

#[test]
fn numbers_are_read_the_way_the_standard_library_reads_them() {
    assert_eq!(parse_args(&["--seed", "+7"]).unwrap().seed, Some(7));
    assert_eq!(
        parse_args(&["--seed", "18446744073709551615"]).unwrap().seed,
        Some(u64::MAX)
    );
    assert!(parse_args(&["--seed", "18446744073709551616"]).is_err());
    assert!(parse_args(&["--seed", ""]).is_err());
    assert!(parse_args(&["--seed", "+"]).is_err());
    assert!(parse_args(&["--seed", " 1"]).is_err());
    assert_eq!(parse_args(&["--columns", "32767"]).unwrap().columns, 32767);
    assert!(parse_args(&["--columns", "32768"]).is_err());
    assert_eq!(
        parse_args(&["--columns", "-5"]).unwrap_err(),
        "--columns must be at least 4"
    );
}

#[test]
fn later_flags_override_earlier_ones() {
    let config = parse_args(&["--rows", "8", "--rows", "9"]).unwrap();
    assert_eq!(config.rows, 9);
}

type Harness = GameLoop<StandardRules<XorShift64>, ScriptedInput, TextCanvas, ManualClock>;

fn harness(actions: &[Action]) -> Harness {
    let engine = Engine::new(Board::standard(), StandardRules::seeded(2026));
    let (width, height) = Screen::required_size(10, 20);
    GameLoop::new(
        engine,
        ScriptedInput::new(actions.to_vec()),
        TextCanvas::new(width, height),
        ManualClock::new(),
    )
}

#[test]
fn a_quit_action_stops_the_loop() {
    let mut game = harness(&[Action::Quit]);
    assert_eq!(game.step().unwrap(), Flow::Quit);
}

#[test]
fn running_returns_once_the_player_quits() {
    let mut game = harness(&[Action::MoveLeft, Action::MoveRight, Action::Quit]);
    game.run().unwrap();
    assert_eq!(game.engine().phase(), Phase::Playing);
}

#[test]
fn an_action_reaches_the_engine() {
    let mut game = harness(&[Action::MoveLeft]);
    let before = game.engine().current().origin;
    game.step().unwrap();
    assert_eq!(game.engine().current().origin, before.shifted(Offset::left()));
}

#[test]
fn a_frame_with_no_key_pressed_still_advances_gravity() {
    let mut game = harness(&[]);
    game.clock.advance(ClassicGravity::default().interval(0));
    let before = game.engine().current().origin.y;
    game.step().unwrap();
    assert_eq!(game.engine().current().origin.y, before + 1);
}

#[test]
fn no_elapsed_time_means_the_piece_does_not_move_on_its_own() {
    let mut game = harness(&[]);
    let before = *game.engine().current();
    game.step().unwrap();
    assert_eq!(*game.engine().current(), before);
}

#[test]
fn every_frame_leaves_something_drawn_on_the_canvas() {
    let mut game = harness(&[]);
    game.step().unwrap();
    assert!(game.canvas().to_text().contains("TETRIS"));
}

#[test]
fn the_canvas_is_cleared_each_frame_so_old_pieces_do_not_smear() {
    let mut game = harness(&[Action::HardDrop]);
    game.step().unwrap();
    let filled_after_drop = game.canvas().to_text().matches('█').count();
    game.draw().unwrap();
    assert_eq!(
        game.canvas().to_text().matches('█').count(),
        filled_after_drop
    );
}

#[test]
fn the_drawn_score_follows_the_game() {
    let mut game = harness(&[Action::HardDrop]);
    game.step().unwrap();
    assert!(game.engine().stats().score > 0);
    assert!(!game.canvas().to_text().contains("SCORE\n"));
}

#[test]
fn a_full_game_can_be_played_to_its_end_without_a_terminal() {
    let mut script = vec![Action::HardDrop; 200];
    script.push(Action::Quit);
    let mut game = harness(&script);
    game.run().unwrap();
    assert!(game.engine().stats().pieces > 0);
    assert!(game.engine().phase().is_over() || game.engine().stats().score > 0);
}

#[test]
fn quitting_is_not_passed_on_to_the_engine_as_a_move() {
    let mut game = harness(&[Action::Quit]);
    let before = *game.engine().current();
    game.step().unwrap();
    assert_eq!(*game.engine().current(), before);
}

#[test]
fn pausing_through_the_loop_freezes_gravity() {
    let mut game = harness(&[Action::TogglePause]);
    game.step().unwrap();
    let frozen = *game.engine().current();
    game.clock.advance(Duration::from_secs(5));
    game.step().unwrap();
    assert_eq!(*game.engine().current(), frozen);
    assert!(game.canvas().to_text().contains("PAUSED"));
}

#[test]
fn the_score_drawn_each_frame_is_the_score_of_the_game() {
    let mut game = harness(&[Action::HardDrop, Action::HardDrop]);
    game.step().unwrap();
    game.step().unwrap();
    let score = game.engine().stats().score.to_string();
    assert!(game.canvas().to_text().contains(&score));
}

#[test]
fn responding_to_quit_leaves_the_game_and_the_canvas_alone() {
    let mut game = harness(&[]);
    let before = *game.engine().current();
    assert_eq!(game.respond(Some(Action::Quit)).unwrap(), Flow::Quit);
    assert_eq!(*game.engine().current(), before);
    assert_eq!(game.canvas().to_text().trim(), "");
}

#[test]
fn responding_to_an_action_applies_it_and_draws_the_frame() {
    let mut game = harness(&[]);
    let before = game.engine().current().origin;
    assert_eq!(game.respond(Some(Action::MoveRight)).unwrap(), Flow::Continue);
    assert_eq!(game.engine().current().origin, before.shifted(Offset::right()));
    assert!(game.canvas().to_text().contains("TETRIS"));
}

#[test]
fn drawing_twice_shows_the_same_picture_as_drawing_once() {
    let mut game = harness(&[Action::MoveLeft]);
    game.step().unwrap();
    game.draw().unwrap();
    let once = game.canvas().to_text();
    game.draw().unwrap();
    assert_eq!(game.canvas().to_text(), once);
}

#[test]
fn a_scripted_run_stops_at_the_quit_having_played_what_came_before() {
    let mut game = harness(&[Action::MoveLeft, Action::MoveLeft, Action::Quit, Action::MoveRight]);
    let start = game.engine().current().origin.x;
    game.run().unwrap();
    assert_eq!(game.engine().current().origin.x, start - 2);
    assert_eq!(game.engine().phase(), Phase::Playing);
}
