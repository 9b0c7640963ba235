use para_speak::config::Config;
use para_speak::engine::action_available;
use para_speak::error::MatcherError;
use para_speak::handler::dispatch_action;
use para_speak::{
    Key, KeyEvent, MatcherEngine, ShortcutAction, ShortcutEngineState, ShortcutHandler,
};
use std::cell::RefCell;

#[test]
fn comprehensive_transition() {
    let mut state = ShortcutEngineState::Idle;
    let mut seen = vec![state];
    for action in [
        ShortcutAction::Start,
        ShortcutAction::Pause,
        ShortcutAction::Cancel,
        ShortcutAction::Start,
        ShortcutAction::Stop,
    ] {
        state = MatcherEngine::determine_next_state(action, state);
        seen.push(state);
    }
    assert_eq!(
        seen,
        vec![
            ShortcutEngineState::Idle,
            ShortcutEngineState::Active,
            ShortcutEngineState::Paused,
            ShortcutEngineState::Idle,
            ShortcutEngineState::Active,
            ShortcutEngineState::Idle,
        ]
    );
}

#[test]
fn the_engine_follows_the_actions_it_emits() {
    let mut engine = MatcherEngine::new_with_patterns(
        None,
        vec![
            ("F1", ShortcutAction::Start),
            ("F2", ShortcutAction::Stop),
            ("F3", ShortcutAction::Pause),
            ("F4", ShortcutAction::Cancel),
        ],
    );
    let mut states = vec![engine.state()];
    for (key, expected) in [
        (Key::F1, ShortcutAction::Start),
        (Key::F3, ShortcutAction::Pause),
        (Key::F4, ShortcutAction::Cancel),
        (Key::F1, ShortcutAction::Start),
        (Key::F2, ShortcutAction::Stop),
    ] {
        assert_eq!(engine.process_event_with_time(KeyEvent::Press(key), 10), Some(expected));
        states.push(engine.state());
    }
    assert_eq!(
        states,
        vec![
            ShortcutEngineState::Idle,
            ShortcutEngineState::Active,
            ShortcutEngineState::Paused,
            ShortcutEngineState::Idle,
            ShortcutEngineState::Active,
            ShortcutEngineState::Idle,
        ]
    );
}

#[test]
fn pause_toggles_between_paused_and_active() {
    let idle = ShortcutEngineState::Idle;
    let active = ShortcutEngineState::Active;
    let paused = ShortcutEngineState::Paused;
    assert_eq!(MatcherEngine::determine_next_state(ShortcutAction::Pause, active), paused);
    assert_eq!(MatcherEngine::determine_next_state(ShortcutAction::Pause, paused), active);
    assert_eq!(MatcherEngine::determine_next_state(ShortcutAction::Pause, idle), paused);
    assert_eq!(MatcherEngine::determine_next_state(ShortcutAction::Cancel, paused), idle);
    assert_eq!(MatcherEngine::determine_next_state(ShortcutAction::Stop, paused), idle);
    assert_eq!(MatcherEngine::determine_next_state(ShortcutAction::Start, active), active);
}

#[test]
fn each_state_has_its_actions() {
    let idle = ShortcutEngineState::Idle;
    let active = ShortcutEngineState::Active;
    let paused = ShortcutEngineState::Paused;
    let start = ShortcutAction::Start;
    let stop = ShortcutAction::Stop;
    let cancel = ShortcutAction::Cancel;
    let pause = ShortcutAction::Pause;
    assert_eq!(MatcherEngine::get_available_actions(idle), vec![start]);
    assert_eq!(MatcherEngine::get_available_actions(active), vec![stop, cancel, pause]);
    assert_eq!(MatcherEngine::get_available_actions(paused), vec![pause, cancel, stop]);
    for state in [idle, active, paused] {
        for action in [start, stop, cancel, pause] {
            assert_eq!(
                action_available(state, action),
                MatcherEngine::get_available_actions(state).contains(&action)
            );
        }
    }
}

#[test]
fn after_a_change_of_state_only_its_actions_are_emitted() {
    let mut engine = MatcherEngine::new_with_patterns(
        Some(50),
        vec![
            ("F1", ShortcutAction::Start),
            ("F2", ShortcutAction::Stop),
            ("F3", ShortcutAction::Pause),
            ("F4", ShortcutAction::Cancel),
        ],
    );
    engine.set_state(ShortcutEngineState::Active);
    assert_eq!(engine.process_event_with_time(KeyEvent::Press(Key::F1), 1), None);
    assert_eq!(engine.state(), ShortcutEngineState::Active);
    assert_eq!(
        engine.process_event_with_time(KeyEvent::Press(Key::F3), 2),
        Some(ShortcutAction::Pause)
    );
    assert_eq!(engine.process_event_with_time(KeyEvent::Press(Key::F1), 3), None);
    assert_eq!(
        engine.process_event_with_time(KeyEvent::Press(Key::F3), 4),
        Some(ShortcutAction::Pause)
    );
    assert_eq!(engine.state(), ShortcutEngineState::Active);
    assert_eq!(
        engine.process_event_with_time(KeyEvent::Press(Key::F2), 5),
        Some(ShortcutAction::Stop)
    );
    assert_eq!(engine.process_event_with_time(KeyEvent::Press(Key::F2), 6), None);
    assert_eq!(engine.process_event_with_time(KeyEvent::Press(Key::F4), 7), None);
    assert_eq!(engine.state(), ShortcutEngineState::Idle);
}

#[test]
fn an_engine_from_a_configuration_starts_with_the_idle_patterns() {
    let config = Config::new_for_test(vec![], vec![], vec![], vec![]).with_defaults(&None);
    let mut engine = MatcherEngine::from_config(&config);
    assert_eq!(engine.state(), ShortcutEngineState::Idle);
    // stop is a single ControlLeft, but not while idle
    assert_eq!(engine.process_event_with_time(KeyEvent::Press(Key::ControlLeft), 0), None);
    assert_eq!(engine.pending_count(), 0);
    assert_eq!(
        engine.process_event_with_time(KeyEvent::Press(Key::ControlLeft), 300),
        Some(ShortcutAction::Start)
    );
    assert_eq!(engine.state(), ShortcutEngineState::Active);
    // now the single ControlLeft stops at once: nothing shares its key
    assert_eq!(
        engine.process_event_with_time(KeyEvent::Press(Key::ControlLeft), 1000),
        Some(ShortcutAction::Stop)
    );
    assert_eq!(engine.state(), ShortcutEngineState::Idle);
    assert_eq!(engine.process_event_with_time(KeyEvent::Press(Key::Escape), 2000), None);
}

#[test]
fn keys_from_a_configuration_are_grouped_by_action() {
    let mut engine = MatcherEngine::from_keys(
        Some(20),
        &vec!["F1".to_string()],
        &vec!["F2".to_string()],
        &vec!["double(F2, 100)".to_string()],
        &vec![],
    );
    assert_eq!(
        engine.process_event_with_time(KeyEvent::Press(Key::F1), 0),
        Some(ShortcutAction::Start)
    );
    // F2 alone stops after the double tap's limit and the margin
    assert_eq!(engine.process_event_with_time(KeyEvent::Press(Key::F2), 10), None);
    assert_eq!(engine.poll_delayed_action(129), None);
    assert_eq!(engine.poll_delayed_action(130), Some(ShortcutAction::Stop));
    assert_eq!(engine.state(), ShortcutEngineState::Idle);
}

#[test]
fn texts_that_cannot_be_read_are_dropped() {
    let mut engine = MatcherEngine::new_with_patterns(
        None,
        vec![
            ("NoSuchKey", ShortcutAction::Start),
            ("F5;double(", ShortcutAction::Start),
            ("F6", ShortcutAction::Start),
        ],
    );
    assert_eq!(engine.process_event_with_time(KeyEvent::Press(Key::F5), 0), None);
    assert_eq!(
        engine.process_event_with_time(KeyEvent::Press(Key::F6), 0),
        Some(ShortcutAction::Start)
    );
}

#[test]
fn expected_keys_are_the_trigger_keys_while_nothing_is_active() {
    let mut engine = MatcherEngine::new_with_patterns(
        None,
        vec![("ControlLeft+KeyA", ShortcutAction::Start), ("double(F1)", ShortcutAction::Start)],
    );
    let keys = engine.get_expected_keys();
    assert_eq!(keys.len(), 2);
    assert!(keys.contains(Key::ControlLeft) && keys.contains(Key::F1));
    assert!(!keys.contains(Key::KeyA));
    assert!(engine.should_activate(Key::F1, true));
    assert!(!engine.should_activate(Key::F1, false));
    assert!(!engine.should_activate(Key::KeyA, true));
    engine.process_event_with_time(KeyEvent::Press(Key::F1), 0);
    assert!(engine.get_expected_keys().is_empty());
    engine.reset();
    assert_eq!(engine.get_expected_keys().len(), 2);
}

#[test]
fn the_engine_idles_after_two_seconds_without_activity() {
    let mut engine =
        MatcherEngine::new_with_patterns(None, vec![("double(F1, 5000)", ShortcutAction::Start)]);
    assert!(!engine.is_actively_listening());
    engine.activate(1000);
    assert!(engine.is_actively_listening());
    assert!(!engine.should_deactivate(3000));
    assert!(engine.should_deactivate(3001));
    engine.update_activity(2000);
    assert!(!engine.should_deactivate(4000));
    assert!(engine.should_deactivate(4001));
    // a match in progress keeps the engine awake
    engine.process_event_with_time(KeyEvent::Press(Key::F1), 4000);
    assert!(!engine.should_deactivate(9000));
    engine.deactivate();
    assert!(!engine.is_actively_listening());
    assert!(engine.should_deactivate(9000));
    engine.check_delayed_actions(9000);
    assert_eq!(engine.state(), ShortcutEngineState::Idle);
}

struct Recorder {
    actions: RefCell<Vec<ShortcutAction>>,
}

impl ShortcutHandler for Recorder {
    fn handle_action(&self, action: ShortcutAction) {
        self.actions.borrow_mut().push(action);
    }

    fn handle_error(&self, _error: String) {}
}

#[test]
fn actions_reach_the_handler() {
    let handler = Recorder { actions: RefCell::new(Vec::new()) };
    assert!(!dispatch_action(&handler, None));
    assert!(dispatch_action(&handler, Some(ShortcutAction::Cancel)));
    assert_eq!(*handler.actions.borrow(), vec![ShortcutAction::Cancel]);
}

#[test]
fn matcher_errors_have_their_text() {
    let e = MatcherError::ConflictingActions {
        has_immediate: true,
        delayed_count: 12,
        event_debug: "Press(F1)".to_string(),
    };
    assert_eq!(
        e.message(),
        "Conflicting actions detected: immediate=true, delayed_count=12, event=Press(F1)"
    );
    assert_eq!(
        MatcherError::InvalidState { message: "x".to_string() }.message(),
        "Invalid state: x"
    );
    assert_eq!(
        MatcherError::ProcessingError { message: "y".to_string() }.message(),
        "Processing error: y"
    );
}
