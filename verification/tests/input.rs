use std::collections::HashSet;
use std::time::Duration;
use tetris::game::Action;
use tetris::geometry::Spin;
use tetris::input::terminal::{is_interrupt, translate, KeyCode, KeyEvent, KeyEventKind, KeyModifiers};
use tetris::input::{DefaultKeyMap, InputSource, Key, KeyMap, ScriptedInput, TerminalInput};

#[test]
fn a_letter_key_reports_its_character_in_lowercase() {
    assert_eq!(Key::Char('Q').letter(), Some('q'));
    assert_eq!(Key::Char('q').letter(), Some('q'));
}

#[test]
fn a_named_key_carries_no_letter() {
    assert_eq!(Key::Left.letter(), None);
    assert_eq!(Key::Space.letter(), None);
}

#[test]
fn the_arrows_are_four_distinct_keys() {
    let arrows: HashSet<Key> = [Key::Left, Key::Right, Key::Up, Key::Down].into();
    assert_eq!(arrows.len(), 4);
}

fn action(key: Key) -> Option<Action> {
    DefaultKeyMap.action_for(key)
}

#[test]
fn the_arrow_keys_move_and_turn_the_piece() {
    assert_eq!(action(Key::Left), Some(Action::MoveLeft));
    assert_eq!(action(Key::Right), Some(Action::MoveRight));
    assert_eq!(action(Key::Down), Some(Action::SoftDrop));
    assert_eq!(action(Key::Up), Some(Action::Rotate(Spin::Clockwise)));
}

#[test]
fn space_is_the_hard_drop_because_it_is_the_easiest_key_to_hit() {
    assert_eq!(action(Key::Space), Some(Action::HardDrop));
}

#[test]
fn both_rotation_directions_are_reachable_from_the_keyboard() {
    assert_eq!(
        action(Key::Char('z')),
        Some(Action::Rotate(Spin::CounterClockwise))
    );
    assert_eq!(
        action(Key::Char('x')),
        Some(Action::Rotate(Spin::Clockwise))
    );
}

#[test]
fn keys_work_with_caps_lock_on() {
    for (lower, upper) in [('q', 'Q'), ('p', 'P'), ('r', 'R'), ('z', 'Z')] {
        assert_eq!(action(Key::Char(lower)), action(Key::Char(upper)));
    }
}

#[test]
fn there_are_two_ways_to_quit_so_the_player_is_never_trapped() {
    assert_eq!(action(Key::Escape), Some(Action::Quit));
    assert_eq!(action(Key::Char('q')), Some(Action::Quit));
}

#[test]
fn pause_and_restart_are_bound() {
    assert_eq!(action(Key::Char('p')), Some(Action::TogglePause));
    assert_eq!(action(Key::Char('r')), Some(Action::Restart));
}

#[test]
fn an_unbound_key_does_nothing_rather_than_guessing() {
    assert_eq!(action(Key::Char('k')), None);
    assert_eq!(action(Key::Char('7')), None);
}

#[test]
fn no_two_distinct_keys_are_bound_to_conflicting_meanings_by_accident() {
    let bound: Vec<Action> = "qprzx"
        .chars()
        .filter_map(|ch| action(Key::Char(ch)))
        .collect();
    assert_eq!(bound.len(), 5);
}

fn drain(source: &mut ScriptedInput) -> Vec<Action> {
    let mut seen = Vec::new();
    while let Ok(Some(action)) = source.poll(Duration::ZERO) {
        seen.push(action);
    }
    seen
}

#[test]
fn scripted_actions_arrive_in_the_order_they_were_written() {
    let script = [Action::MoveLeft, Action::HardDrop, Action::Quit];
    let mut source = ScriptedInput::new(script.to_vec());
    assert_eq!(drain(&mut source), script.to_vec());
}

#[test]
fn an_exhausted_script_reports_nothing_pressed_rather_than_blocking() {
    let mut source = ScriptedInput::new(vec![Action::Quit]);
    source.poll(Duration::ZERO).unwrap();
    assert_eq!(source.poll(Duration::ZERO).unwrap(), None);
    assert!(source.is_exhausted());
}

#[test]
fn an_empty_script_is_immediately_exhausted() {
    let mut source = ScriptedInput::new(vec![]);
    assert!(source.is_exhausted());
    assert_eq!(source.poll(Duration::ZERO).unwrap(), None);
}

#[test]
fn the_timeout_does_not_change_what_a_script_yields() {
    let mut source = ScriptedInput::new(vec![Action::MoveLeft]);
    assert_eq!(
        source.poll(Duration::from_secs(10)).unwrap(),
        Some(Action::MoveLeft)
    );
}

#[test]
fn the_arrow_codes_become_our_own_arrow_keys() {
    assert_eq!(translate(KeyCode::Left), Some(Key::Left));
    assert_eq!(translate(KeyCode::Right), Some(Key::Right));
    assert_eq!(translate(KeyCode::Up), Some(Key::Up));
    assert_eq!(translate(KeyCode::Down), Some(Key::Down));
}

#[test]
fn a_space_is_recognised_as_the_space_bar_not_as_a_character() {
    assert_eq!(translate(KeyCode::Char(' ')), Some(Key::Space));
}

#[test]
fn a_letter_survives_translation_so_the_key_map_can_see_it() {
    assert_eq!(translate(KeyCode::Char('p')), Some(Key::Char('p')));
}

#[test]
fn keys_the_game_does_not_use_are_dropped_early() {
    assert_eq!(translate(KeyCode::F(5)), None);
    assert_eq!(translate(KeyCode::Insert), None);
}

#[test]
fn control_c_quits_even_though_it_is_not_in_the_key_map() {
    let key = KeyEvent::new(KeyCode::Char('c'), KeyModifiers::control());
    assert!(is_interrupt(key));
    assert_eq!(DefaultKeyMap.action_for(Key::Char('c')), None);
}

#[test]
fn a_plain_c_is_not_an_interrupt() {
    assert!(!is_interrupt(KeyEvent::new(
        KeyCode::Char('c'),
        KeyModifiers::none()
    )));
}

#[test]
fn translation_feeds_the_key_map_which_produces_the_action() {
    let keymap = DefaultKeyMap;
    let key = translate(KeyCode::Char('z')).unwrap();
    assert_eq!(
        keymap.action_for(key),
        Some(Action::Rotate(Spin::CounterClockwise))
    );
}

#[test]
fn the_terminal_reader_quits_on_control_c_and_ignores_released_keys() {
    let input = TerminalInput::default();
    let interrupt = KeyEvent::new(KeyCode::Char('C'), KeyModifiers::control());
    assert_eq!(input.interpret(interrupt), Some(Action::Quit));
    let released = KeyEvent {
        kind: KeyEventKind::Release,
        ..KeyEvent::new(KeyCode::Left, KeyModifiers::none())
    };
    assert_eq!(input.interpret(released), None);
    let repeated = KeyEvent {
        kind: KeyEventKind::Repeat,
        ..KeyEvent::new(KeyCode::Left, KeyModifiers::none())
    };
    assert_eq!(input.interpret(repeated), Some(Action::MoveLeft));
}

#[test]
fn the_terminal_reader_maps_keys_through_its_key_map() {
    let input = TerminalInput::new(DefaultKeyMap);
    let none = KeyModifiers::none();
    assert_eq!(input.interpret(KeyEvent::new(KeyCode::Char(' '), none)), Some(Action::HardDrop));
    assert_eq!(input.interpret(KeyEvent::new(KeyCode::Esc, none)), Some(Action::Quit));
    assert_eq!(input.interpret(KeyEvent::new(KeyCode::Char('P'), none)), Some(Action::TogglePause));
    assert_eq!(input.interpret(KeyEvent::new(KeyCode::Home, none)), None);
    assert_eq!(input.interpret(KeyEvent::new(KeyCode::Char('k'), none)), None);
}

#[test]
fn a_script_is_replayed_whole_and_then_goes_quiet() {
    let mut source = ScriptedInput::new(vec![Action::MoveLeft, Action::HardDrop]);
    assert_eq!(source.poll(Duration::from_millis(5)).unwrap(), Some(Action::MoveLeft));
    assert_eq!(source.poll(Duration::ZERO).unwrap(), Some(Action::HardDrop));
    for _ in 0..3 {
        assert_eq!(source.poll(Duration::ZERO).unwrap(), None);
    }
}
