use para_speak::parser::{parse_double_tap, ParseError};
use para_speak::patterns::Pattern;
use para_speak::types::{ConflictStrategy, PatternType};
use para_speak::{parse_multiple_patterns, parse_pattern, Key, ShortcutAction};

fn chars(s: &str) -> Vec<char> {
    s.chars().collect()
}

fn triggers(patterns: &[Pattern]) -> Vec<Key> {
    patterns.iter().map(|p| p.get_trigger_key()).collect()
}

#[test]
fn every_key_name_is_read() {
    let names: Vec<(&str, Key)> = vec![
        ("CommandLeft", Key::MetaLeft),
        ("MetaLeft", Key::MetaLeft),
        ("CommandRight", Key::MetaRight),
        ("MetaRight", Key::MetaRight),
        ("ControlLeft", Key::ControlLeft),
        ("ControlRight", Key::ControlRight),
        ("ShiftLeft", Key::ShiftLeft),
        ("ShiftRight", Key::ShiftRight),
        ("AltLeft", Key::Alt),
        ("AltRight", Key::AltGr),
        ("KeyA", Key::KeyA),
        ("A", Key::KeyA),
        ("KeyM", Key::KeyM),
        ("Q", Key::KeyQ),
        ("Z", Key::KeyZ),
        ("KeyZ", Key::KeyZ),
        ("Escape", Key::Escape),
        ("Esc", Key::Escape),
        ("Space", Key::Space),
        ("Return", Key::Return),
        ("Enter", Key::Return),
        ("Tab", Key::Tab),
        ("Backspace", Key::Backspace),
        ("Delete", Key::Delete),
        ("F1", Key::F1),
        ("F9", Key::F9),
        ("F10", Key::F10),
        ("F12", Key::F12),
    ];
    for (name, key) in names {
        let patterns = parse_pattern(name, ShortcutAction::Stop).unwrap();
        assert_eq!(triggers(&patterns), vec![key], "{}", name);
        assert_eq!(patterns[0].get_type(), PatternType::Single);
        assert_eq!(patterns[0].action(), ShortcutAction::Stop);
        assert_eq!(patterns[0].get_timeout(), None);
    }
}

#[test]
fn a_modifier_without_a_side_is_both() {
    let both: Vec<(&str, Key, Key)> = vec![
        ("Control", Key::ControlLeft, Key::ControlRight),
        ("Ctrl", Key::ControlLeft, Key::ControlRight),
        ("Shift", Key::ShiftLeft, Key::ShiftRight),
        ("Alt", Key::Alt, Key::AltGr),
        ("Option", Key::Alt, Key::AltGr),
        ("Meta", Key::MetaLeft, Key::MetaRight),
        ("Cmd", Key::MetaLeft, Key::MetaRight),
        ("Command", Key::MetaLeft, Key::MetaRight),
        ("Win", Key::MetaLeft, Key::MetaRight),
        ("Windows", Key::MetaLeft, Key::MetaRight),
        ("Super", Key::MetaLeft, Key::MetaRight),
    ];
    for (name, left, right) in both {
        let patterns = parse_pattern(name, ShortcutAction::Start).unwrap();
        assert_eq!(triggers(&patterns), vec![left, right], "{}", name);
    }
}

#[test]
fn parse_errors_name_what_was_wrong() {
    let text = |r: Result<Vec<Pattern>, ParseError>| r.unwrap_err().message();
    assert_eq!(text(parse_pattern("", ShortcutAction::Start)), "Empty pattern");
    assert_eq!(text(parse_pattern("  \t ", ShortcutAction::Start)), "Empty pattern");
    assert_eq!(text(parse_pattern("Hyper", ShortcutAction::Start)), "Unknown key: Hyper");
    assert_eq!(text(parse_pattern("controlleft", ShortcutAction::Start)), "Unknown key: controlleft");
    assert_eq!(text(parse_pattern("A+Foo+B", ShortcutAction::Start)), "Unknown key: Foo");
    assert_eq!(text(parse_pattern("A+", ShortcutAction::Start)), "Unknown key: ");
    assert_eq!(
        text(parse_pattern("double(A, soon)", ShortcutAction::Start)),
        "Invalid timeout value: soon"
    );
    assert_eq!(
        text(parse_pattern("double(Foo, soon)", ShortcutAction::Start)),
        "Invalid timeout value: soon"
    );
    assert_eq!(
        text(parse_pattern("double(A, -1)", ShortcutAction::Start)),
        "Invalid timeout value: -1"
    );
    assert_eq!(
        text(parse_pattern("double(A, 18446744073709551616)", ShortcutAction::Start)),
        "Invalid timeout value: 18446744073709551616"
    );
    assert_eq!(text(parse_pattern("double(A,)", ShortcutAction::Start)), "Invalid timeout value: ");
    assert_eq!(text(parse_pattern("double()", ShortcutAction::Start)), "Unknown key: ");
    assert_eq!(text(parse_pattern("double(A", ShortcutAction::Start)), "Unknown key: double(A");
    assert_eq!(
        text(parse_double_tap(&chars("doubled(A)"), ShortcutAction::Start)),
        "Invalid pattern format: doubled(A)"
    );
    assert_eq!(
        text(parse_double_tap(&chars("double("), ShortcutAction::Start)),
        "Invalid pattern format: double("
    );
    assert_eq!(
        text(parse_multiple_patterns("A;B+Nope;Also", ShortcutAction::Start)),
        "Unknown key: Nope"
    );
}

#[test]
fn a_double_tap_has_its_time_limit() {
    let d = parse_pattern("double(Escape)", ShortcutAction::Cancel).unwrap();
    assert_eq!(d.len(), 1);
    assert_eq!(d[0].get_type(), PatternType::DoubleTap);
    assert_eq!(d[0].get_timeout(), Some(300));
    assert_eq!(d[0].get_trigger_key(), Key::Escape);
    assert_eq!(d[0].action(), ShortcutAction::Cancel);
    let d = parse_pattern("  double( Ctrl ,  0750 , ignored ) ", ShortcutAction::Start).unwrap();
    assert_eq!(triggers(&d), vec![Key::ControlLeft, Key::ControlRight]);
    assert_eq!(d[0].get_timeout(), Some(750));
    assert_eq!(d[1].get_timeout(), Some(750));
    let d = parse_pattern("double(A, +18446744073709551615)", ShortcutAction::Start).unwrap();
    assert_eq!(d[0].get_timeout(), Some(u64::MAX));
    let d = parse_pattern("double(A,0)", ShortcutAction::Start).unwrap();
    assert_eq!(d[0].get_timeout(), Some(0));
}

#[test]
fn a_combo_expands_left_before_right() {
    let combos = parse_pattern(" Ctrl + Shift+KeyY ", ShortcutAction::Pause).unwrap();
    assert_eq!(combos.len(), 4);
    let expected = vec![
        vec![Key::ControlLeft, Key::ShiftLeft, Key::KeyY],
        vec![Key::ControlLeft, Key::ShiftRight, Key::KeyY],
        vec![Key::ControlRight, Key::ShiftLeft, Key::KeyY],
        vec![Key::ControlRight, Key::ShiftRight, Key::KeyY],
    ];
    for (combo, keys) in combos.iter().zip(expected.iter()) {
        assert_eq!(combo.get_type(), PatternType::Combo);
        assert_eq!(combo.action(), ShortcutAction::Pause);
        assert_eq!(combo.get_trigger_key(), keys[0]);
        for key in keys {
            assert!(combo.could_match_key(*key));
        }
        assert!(!combo.could_match_key(Key::KeyX));
    }
    assert!(!combos[0].could_match_key(Key::ControlRight));
    assert!(!combos[0].could_match_key(Key::ShiftRight));
    assert!(combos[3].could_match_key(Key::ShiftRight));
}

#[test]
fn blank_pieces_are_skipped() {
    let patterns = parse_multiple_patterns(" ; A ;; double(B) ; ", ShortcutAction::Start).unwrap();
    assert_eq!(triggers(&patterns), vec![Key::KeyA, Key::KeyB]);
    assert!(parse_multiple_patterns("", ShortcutAction::Start).unwrap().is_empty());
    assert!(parse_multiple_patterns(" ;; ", ShortcutAction::Start).unwrap().is_empty());
}

#[test]
fn fresh_single_keys_fire_at_once() {
    let patterns = parse_pattern("A", ShortcutAction::Start).unwrap();
    match &patterns[0] {
        Pattern::Single(single) => {
            assert_eq!(single.conflict_strategy(), ConflictStrategy::Immediate)
        }
        other => panic!("unexpected {:?}", other),
    }
    assert!(!patterns[0].has_partial_match());
}
