use para_speak::replacements::{default_replacements, parse_replace_pairs, ReplacementTable};

#[test]
fn test_parse_replace_pairs() {
    let result = parse_replace_pairs(&Some("ui:UI;uh:;um".to_string()));
    assert_eq!(result.get("ui"), Some(&Some("UI".to_string())));
    assert_eq!(result.get("uh"), Some(&None));
    assert_eq!(result.get("um"), Some(&None));

    let result = parse_replace_pairs(&Some("foo:bar".to_string()));
    assert_eq!(result.get("foo"), Some(&Some("bar".to_string())));

    let result = parse_replace_pairs(&Some("remove_me:".to_string()));
    assert_eq!(result.get("remove_me"), Some(&None));

    let result = parse_replace_pairs(&Some("remove_me".to_string()));
    assert_eq!(result.get("remove_me"), Some(&None));

    let result = parse_replace_pairs(&Some("a:b;c:d;e:f".to_string()));
    assert_eq!(result.get("a"), Some(&Some("b".to_string())));
    assert_eq!(result.get("c"), Some(&Some("d".to_string())));
    assert_eq!(result.get("e"), Some(&Some("f".to_string())));

    let result = parse_replace_pairs(&Some("  spaces : trimmed  ; next:pair ".to_string()));
    assert_eq!(result.get("spaces"), Some(&Some("trimmed".to_string())));
    assert_eq!(result.get("next"), Some(&Some("pair".to_string())));
}

#[test]
fn test_empty_string_uses_defaults() {
    let result = parse_replace_pairs(&Some("".to_string()));

    assert_eq!(result.get("Uh"), Some(&None));
    assert_eq!(result.get("uh"), Some(&None));
    assert_eq!(result.len(), 8);
}

#[test]
fn test_custom_overrides_defaults() {
    let result = parse_replace_pairs(&Some("uh:actually;Um:Indeed".to_string()));

    assert_eq!(result.get("uh"), Some(&Some("actually".to_string())));
    assert_eq!(result.get("Um"), Some(&Some("Indeed".to_string())));

    assert_eq!(result.get("Uh"), Some(&None));
    assert_eq!(result.get("oh"), Some(&None));
}

#[test]
fn no_text_means_the_defaults() {
    let result = parse_replace_pairs(&None);
    assert_eq!(result.len(), 8);
    for key in ["Uh", "uh", "ah", "oh", "um", "Um", "Oh", "so."] {
        assert_eq!(result.get(key), Some(&None));
    }
    assert_eq!(result.get("so"), None);
    let defaults = default_replacements();
    assert_eq!(defaults.len(), 8);
    assert_eq!(defaults.entries()[0].0, "Uh");
    assert_eq!(defaults.entries()[7].0, "so.");
}

#[test]
fn only_the_first_colon_separates() {
    let result = parse_replace_pairs(&Some("time:12:30; ;;x : ".to_string()));
    assert_eq!(result.get("time"), Some(&Some("12:30".to_string())));
    assert_eq!(result.get("x"), Some(&None));
    assert_eq!(result.len(), 10);
}

#[test]
fn a_later_pair_overrides_in_place() {
    let mut table = ReplacementTable::new();
    table.insert("a".to_string(), None);
    table.insert("b".to_string(), Some("B".to_string()));
    table.insert("a".to_string(), Some("A".to_string()));
    assert_eq!(table.len(), 2);
    assert_eq!(table.entries()[0], ("a".to_string(), Some("A".to_string())));
    assert_eq!(table.entries()[1], ("b".to_string(), Some("B".to_string())));
    assert_eq!(table.get("c"), None);
}
