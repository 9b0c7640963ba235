use para_speak::conflict_resolver::ConflictResolver;
use para_speak::matcher::ShortcutMatcher;
use para_speak::patterns::{ComboPattern, DoubleTapPattern, Pattern, SingleKeyPattern};
use para_speak::types::{
    ConflictStrategy, DelayedActionId, KeyState, MatchResult, PatternType,
};
use para_speak::{Key, KeyEvent, KeySet, ShortcutAction};

fn is_partial(r: &MatchResult, expected: &[Key]) -> bool {
    match r {
        MatchResult::Partial { next_expected } => next_expected.as_slice() == expected,
        _ => false,
    }
}

fn is_complete(r: &MatchResult, expected: ShortcutAction) -> bool {
    matches!(r, MatchResult::Complete { action } if *action == expected)
}

#[test]
fn a_single_key_follows_its_strategy() {
    let mut p = SingleKeyPattern::new(Key::F1, ShortcutAction::Start);
    assert!(is_complete(&p.process_key_press(Key::F1, 0), ShortcutAction::Start));
    assert!(p.has_partial_match());
    assert!(matches!(p.process_key_press(Key::F2, 0), MatchResult::NoMatch));
    assert!(matches!(p.process_key_release(Key::F1, 10), MatchResult::NoMatch));
    assert!(!p.has_partial_match());

    p.set_conflict_strategy(ConflictStrategy::DelayedFire { delay_ms: 350 });
    match p.process_key_press(Key::F1, 0) {
        MatchResult::Delayed { action, wait_ms } => {
            assert_eq!(action, ShortcutAction::Start);
            assert_eq!(wait_ms, 350);
        }
        other => panic!("unexpected {:?}", other),
    }

    p.reset();
    p.set_conflict_strategy(ConflictStrategy::FireOnRelease);
    assert!(matches!(p.process_key_press(Key::F2, 0), MatchResult::NoMatch));
    assert!(is_partial(&p.process_key_press(Key::F1, 1000), &[]));
    assert!(is_partial(&p.process_key_press(Key::F2, 1010), &[]));
    assert!(matches!(p.process_key_release(Key::F2, 1020), MatchResult::NoMatch));
    assert!(p.has_partial_match());
    assert!(is_complete(&p.process_key_release(Key::F1, 1099), ShortcutAction::Start));
    assert!(is_partial(&p.process_key_press(Key::F1, 2000), &[]));
    assert!(matches!(p.process_key_release(Key::F1, 2100), MatchResult::NoMatch));
    assert!(!p.is_expired(u64::MAX));
    assert_eq!(p.get_activation_keys(), vec![Key::F1]);
    assert_eq!(p.get_type(), PatternType::Single);
    assert!(p.could_match_key(Key::F1) && !p.could_match_key(Key::F2));
}

#[test]
fn a_double_tap_needs_two_taps_in_time() {
    let mut p = DoubleTapPattern::new(Key::Escape, 300, ShortcutAction::Cancel);
    assert!(matches!(p.process_key_press(Key::Space, 0), MatchResult::NoMatch));
    assert!(is_partial(&p.process_key_press(Key::Escape, 1000), &[Key::Escape]));
    assert!(!p.is_expired(1300));
    assert!(p.is_expired(1301));
    assert!(is_complete(&p.process_key_press(Key::Escape, 1300), ShortcutAction::Cancel));
    assert!(!p.has_partial_match());
    assert!(is_partial(&p.process_key_press(Key::Escape, 2000), &[Key::Escape]));
    // too late: the second tap counts as a first
    assert!(is_partial(&p.process_key_press(Key::Escape, 2301), &[Key::Escape]));
    assert!(is_complete(&p.process_key_press(Key::Escape, 2601), ShortcutAction::Cancel));
    assert!(matches!(p.process_key_release(Key::Escape, 0), MatchResult::NoMatch));
    // a clock that reads earlier counts as no time passed
    assert!(is_partial(&p.process_key_press(Key::Escape, 5000), &[Key::Escape]));
    assert!(!p.is_expired(10));
    assert!(is_complete(&p.process_key_press(Key::Escape, 10), ShortcutAction::Cancel));
    assert_eq!(p.get_timeout(), Some(300));
}

#[test]
fn a_combo_wants_its_keys_in_order() {
    let keys = vec![Key::ControlLeft, Key::ShiftLeft, Key::KeyY];
    let mut p = ComboPattern::new(keys, ShortcutAction::Start);
    assert!(is_partial(&p.process_key_press(Key::ControlLeft, 0), &[Key::ShiftLeft]));
    // a held key again changes nothing
    assert!(is_partial(&p.process_key_press(Key::ControlLeft, 0), &[Key::ShiftLeft]));
    assert!(is_partial(&p.process_key_press(Key::ShiftLeft, 0), &[Key::KeyY]));
    assert!(is_complete(&p.process_key_press(Key::KeyY, 0), ShortcutAction::Start));
    // complete and still held
    assert!(matches!(p.process_key_press(Key::KeyY, 0), MatchResult::NoMatch));
    p.reset();
    assert!(!p.has_partial_match());
    // a wrong key breaks it
    p.process_key_press(Key::ControlLeft, 0);
    assert!(matches!(p.process_key_press(Key::KeyX, 0), MatchResult::NoMatch));
    assert!(!p.has_partial_match());
    // letting go of a key already passed breaks it
    p.process_key_press(Key::ControlLeft, 0);
    p.process_key_press(Key::ShiftLeft, 0);
    assert!(matches!(p.process_key_release(Key::KeyA, 0), MatchResult::NoMatch));
    assert!(p.has_partial_match());
    p.process_key_release(Key::ControlLeft, 0);
    assert!(!p.has_partial_match());
    assert!(is_partial(&p.process_key_press(Key::ControlLeft, 0), &[Key::ShiftLeft]));
    assert_eq!(p.get_trigger_key(), Key::ControlLeft);
    assert_eq!(p.get_activation_keys(), vec![Key::ControlLeft]);
    assert_eq!(p.get_timeout(), None);
}

fn strategy(p: &Pattern) -> ConflictStrategy {
    match p {
        Pattern::Single(s) => s.conflict_strategy(),
        other => panic!("not a single key: {:?}", other),
    }
}

#[test]
fn conflicts_rewrite_single_keys_only() {
    let resolver = ConflictResolver::new(50);
    assert_eq!(resolver.buffer_ms(), 50);
    let mut patterns = vec![
        Pattern::Single(SingleKeyPattern::new(Key::F1, ShortcutAction::Stop)),
        Pattern::DoubleTap(DoubleTapPattern::new(Key::F1, 200, ShortcutAction::Start)),
        Pattern::DoubleTap(DoubleTapPattern::new(Key::F1, 500, ShortcutAction::Pause)),
        Pattern::Single(SingleKeyPattern::new(Key::F2, ShortcutAction::Stop)),
        Pattern::Combo(ComboPattern::new(vec![Key::F2, Key::F1], ShortcutAction::Start)),
        Pattern::DoubleTap(DoubleTapPattern::new(Key::F2, 900, ShortcutAction::Pause)),
        Pattern::Single(SingleKeyPattern::new(Key::F3, ShortcutAction::Stop)),
        Pattern::Single(SingleKeyPattern::new(Key::F4, ShortcutAction::Stop)),
        Pattern::Single(SingleKeyPattern::new(Key::F4, ShortcutAction::Cancel)),
        Pattern::DoubleTap(DoubleTapPattern::new(Key::F5, 100, ShortcutAction::Pause)),
    ];
    resolver.analyze_and_mark_conflicts(&mut patterns);
    assert_eq!(strategy(&patterns[0]), ConflictStrategy::DelayedFire { delay_ms: 550 });
    assert_eq!(strategy(&patterns[3]), ConflictStrategy::FireOnRelease);
    assert_eq!(strategy(&patterns[6]), ConflictStrategy::Immediate);
    assert_eq!(strategy(&patterns[7]), ConflictStrategy::Immediate);
    assert_eq!(strategy(&patterns[8]), ConflictStrategy::Immediate);
    assert_eq!(patterns[1].get_timeout(), Some(200));
    assert_eq!(patterns[9].get_timeout(), Some(100));
}

#[test]
fn the_delay_does_not_wrap() {
    let resolver = ConflictResolver::new(50);
    let mut patterns = vec![
        Pattern::Single(SingleKeyPattern::new(Key::F1, ShortcutAction::Stop)),
        Pattern::DoubleTap(DoubleTapPattern::new(Key::F1, u64::MAX - 10, ShortcutAction::Start)),
    ];
    resolver.analyze_and_mark_conflicts(&mut patterns);
    assert_eq!(strategy(&patterns[0]), ConflictStrategy::DelayedFire { delay_ms: u64::MAX });
}

#[test]
fn a_set_strategy_stays_where_the_key_is_not_shared() {
    let resolver = ConflictResolver::new(50);
    let mut single = SingleKeyPattern::new(Key::F1, ShortcutAction::Stop);
    single.set_conflict_strategy(ConflictStrategy::FireOnRelease);
    let mut patterns = vec![
        Pattern::Single(single),
        Pattern::DoubleTap(DoubleTapPattern::new(Key::F2, 300, ShortcutAction::Start)),
    ];
    resolver.analyze_and_mark_conflicts(&mut patterns);
    assert_eq!(strategy(&patterns[0]), ConflictStrategy::FireOnRelease);
}

#[test]
fn the_matcher_schedules_and_cancels_by_id() {
    let resolver = ConflictResolver::new(50);
    let mut patterns = vec![
        Pattern::Single(SingleKeyPattern::new(Key::F1, ShortcutAction::Stop)),
        Pattern::DoubleTap(DoubleTapPattern::new(Key::F1, 300, ShortcutAction::Start)),
    ];
    resolver.analyze_and_mark_conflicts(&mut patterns);
    let mut matcher = ShortcutMatcher::with_first_id(patterns, 41);
    assert_eq!(matcher.pattern_count(), 2);
    assert!(matcher.can_activate_fast(Key::F1));
    assert!(!matcher.can_activate_fast(Key::F2));
    assert!(!matcher.has_partial_matches());
    let out = matcher.process_event(KeyEvent::Press(Key::F1), 1000);
    assert_eq!(out.action, None);
    assert_eq!(out.delayed.len(), 1);
    assert_eq!(out.delayed[0].id, DelayedActionId(41));
    assert_eq!(out.delayed[0].action, ShortcutAction::Stop);
    assert_eq!(out.delayed[0].trigger_at, 1350);
    assert!(out.cancelled.is_empty());
    assert_eq!(matcher.next_id(), 42);
    assert!(matcher.has_partial_matches());
    assert!(matcher.get_expected_keys().is_empty());
    let out = matcher.process_event(KeyEvent::Press(Key::F1), 1200);
    assert_eq!(out.action, Some(ShortcutAction::Start));
    assert!(out.delayed.is_empty());
    assert_eq!(out.cancelled, vec![DelayedActionId(41)]);
    assert!(!matcher.has_partial_matches());
    // an expired double tap starts over and the single is scheduled anew
    let out = matcher.process_event(KeyEvent::Press(Key::F1), 5000);
    assert_eq!(out.delayed[0].id, DelayedActionId(42));
    let out = matcher.process_event(KeyEvent::Press(Key::F1), 5301);
    assert_eq!(out.action, None);
    assert_eq!(out.delayed[0].id, DelayedActionId(43));
    assert_eq!(out.delayed[0].trigger_at, 5651);
    matcher.reset();
    assert!(!matcher.has_partial_matches());
    assert_eq!(matcher.get_expected_keys().to_vec(), vec![Key::F1]);
}

#[test]
fn shorter_time_limits_go_first() {
    let patterns = vec![
        Pattern::DoubleTap(DoubleTapPattern::new(Key::F1, 500, ShortcutAction::Pause)),
        Pattern::DoubleTap(DoubleTapPattern::new(Key::F1, 200, ShortcutAction::Start)),
    ];
    let mut matcher = ShortcutMatcher::new(patterns);
    matcher.process_event(KeyEvent::Press(Key::F1), 0);
    let out = matcher.process_event(KeyEvent::Press(Key::F1), 150);
    assert_eq!(out.action, Some(ShortcutAction::Start));
    let out = matcher.process_event(KeyEvent::Press(Key::F1), 1000);
    assert_eq!(out.action, None);
    // the shorter one has expired, the longer one completes
    let out = matcher.process_event(KeyEvent::Press(Key::F1), 1400);
    assert_eq!(out.action, Some(ShortcutAction::Pause));
}

#[test]
fn key_events_know_their_key() {
    assert_eq!(KeyEvent::Press(Key::KeyA).key(), Key::KeyA);
    assert_eq!(KeyEvent::Release(Key::Unknown(7)).key(), Key::Unknown(7));
    assert_eq!(KeyEvent::Press(Key::KeyA).state(), KeyState::Pressed);
    assert_eq!(KeyEvent::Release(Key::KeyA).state(), KeyState::Released);
    assert_ne!(Key::Unknown(7), Key::Unknown(8));
}

#[test]
fn a_key_set_holds_each_key_once() {
    let mut set = KeySet::new();
    assert!(set.is_empty());
    assert!(set.insert(Key::F1));
    assert!(set.insert(Key::F2));
    assert!(!set.insert(Key::F1));
    assert_eq!(set.len(), 2);
    assert_eq!(set.to_vec(), vec![Key::F1, Key::F2]);
    assert!(set.contains(Key::F2) && !set.contains(Key::F3));
    assert!(set.remove(Key::F1));
    assert!(!set.remove(Key::F1));
    assert_eq!(set.to_vec(), vec![Key::F2]);
    set.clear();
    assert!(set.is_empty());
}
