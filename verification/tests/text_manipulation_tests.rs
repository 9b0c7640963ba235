use para_speak::config::Config;
use para_speak::replacements::{parse_replace_pairs, ReplacementTable};
use para_speak::text_manipulation::{apply_replacements, handle_transcribed_text, rewrite_matches};

#[test]
fn test_basic_replacements() {
    let mut replacements = ReplacementTable::new();
    replacements.insert("ui".to_string(), Some("UI".to_string()));
    replacements.insert("uh".to_string(), None);
    replacements.insert("um".to_string(), None);

    assert_eq!(
        apply_replacements("ui test uh something um", &replacements),
        "UI test something "
    );
}

#[test]
fn test_word_boundaries() {
    let mut replacements = ReplacementTable::new();
    replacements.insert("is".to_string(), Some("was".to_string()));

    assert_eq!(
        apply_replacements("This is a test", &replacements),
        "This was a test"
    );

    assert_eq!(
        apply_replacements("This isn't affected", &replacements),
        "This isn't affected"
    );

    assert_eq!(
        apply_replacements("His idea is good", &replacements),
        "His idea was good"
    );
}

#[test]
fn test_case_sensitive() {
    let mut replacements = ReplacementTable::new();
    replacements.insert("ui".to_string(), Some("UI".to_string()));
    replacements.insert("UI".to_string(), Some("ui".to_string()));

    assert_eq!(
        apply_replacements("ui should become UI and UI becomes ui", &replacements),
        "UI should become ui and ui becomes UI"
    );

    let mut case_specific = ReplacementTable::new();
    case_specific.insert("So".to_string(), None);
    assert_eq!(
        apply_replacements("So what about so and SO?", &case_specific),
        "what about so and SO?"
    );
}

#[test]
fn test_punctuation_preservation() {
    let mut replacements = ReplacementTable::new();
    replacements.insert("uh".to_string(), None);
    replacements.insert("um".to_string(), None);

    assert_eq!(
        apply_replacements("Well, uh, I think, um, yes!", &replacements),
        "Well, I think, yes!"
    );

    assert_eq!(
        apply_replacements("uh... what about um?", &replacements),
        "... what about ?"
    );
}

#[test]
fn test_multiple_occurrences() {
    let mut replacements = ReplacementTable::new();
    replacements.insert("foo".to_string(), Some("bar".to_string()));

    assert_eq!(
        apply_replacements("foo is foo and foo", &replacements),
        "bar is bar and bar"
    );
}

#[test]
fn test_empty_and_whitespace() {
    let mut replacements = ReplacementTable::new();
    replacements.insert("test".to_string(), None);

    assert_eq!(apply_replacements("", &replacements), "");
    assert_eq!(apply_replacements("   ", &replacements), "   ");
}

#[test]
fn test_no_replacements() {
    assert_eq!(
        apply_replacements("unchanged text", &ReplacementTable::new()),
        "unchanged text"
    );
}

#[test]
fn test_special_regex_chars() {
    let mut replacements = ReplacementTable::new();
    replacements.insert("a.b".to_string(), Some("replaced".to_string()));
    replacements.insert("c*d".to_string(), None);
    replacements.insert("e+f".to_string(), Some("plus".to_string()));
    replacements.insert("g?h".to_string(), None);
    replacements.insert("i[j]k".to_string(), Some("brackets".to_string()));
    replacements.insert("l(m)n".to_string(), None);
    replacements.insert("o^p".to_string(), Some("caret".to_string()));
    replacements.insert("q$r".to_string(), None);
    replacements.insert("s|t".to_string(), Some("pipe".to_string()));
    replacements.insert("u\\v".to_string(), None);

    assert_eq!(
        apply_replacements("test a.b and c*d here", &replacements),
        "test replaced and here"
    );

    assert_eq!(
        apply_replacements("e+f g?h i[j]k", &replacements),
        "plus brackets"
    );

    assert_eq!(apply_replacements("l(m)n o^p q$r", &replacements), "caret ");

    assert_eq!(
        apply_replacements("s|t u\\v end", &replacements),
        "pipe end"
    );
}

#[test]
fn test_beginning_and_end_of_text() {
    let mut replacements = ReplacementTable::new();
    replacements.insert("start".to_string(), Some("begin".to_string()));
    replacements.insert("end".to_string(), Some("finish".to_string()));

    assert_eq!(
        apply_replacements("start middle end", &replacements),
        "begin middle finish"
    );

    assert_eq!(apply_replacements("start", &replacements), "begin");

    assert_eq!(apply_replacements("end", &replacements), "finish");
}

#[test]
fn test_adjacent_replacements() {
    let mut replacements = ReplacementTable::new();
    replacements.insert("uh".to_string(), None);
    replacements.insert("um".to_string(), None);

    assert_eq!(
        apply_replacements("uh um testing", &replacements),
        "testing"
    );

    assert_eq!(apply_replacements("uhum", &replacements), "uhum");
}

#[test]
fn test_mixed_deletions_and_replacements() {
    let mut replacements = ReplacementTable::new();
    replacements.insert("like".to_string(), None);
    replacements.insert("you know".to_string(), None);
    replacements.insert("basically".to_string(), None);
    replacements.insert("i".to_string(), Some("I".to_string()));
    replacements.insert("dont".to_string(), Some("don't".to_string()));

    assert_eq!(
        apply_replacements("i think like basically you know i dont", &replacements),
        "I think I don't"
    );
}

#[test]
fn test_handle_transcribed_text_empty() {
    let config = Config::new_for_test(vec![], vec![], vec![], vec![]);

    assert_eq!(handle_transcribed_text("".to_string(), &config), "");
    assert_eq!(
        handle_transcribed_text("  ".to_string(), &config),
        ""
    );
    assert_eq!(handle_transcribed_text("ab".to_string(), &config), "");
}

#[test]
fn test_handle_transcribed_text_with_replacements() {
    let config = Config::new_for_test(vec![], vec![], vec![], vec![]);

    assert_eq!(
        handle_transcribed_text("This is a test".to_string(), &config),
        "This is a test"
    );

    assert_eq!(
        handle_transcribed_text("   spaces around   ".to_string(), &config),
        "spaces around"
    );
}

#[test]
fn test_overlapping_patterns() {
    let mut replacements = ReplacementTable::new();
    replacements.insert("the".to_string(), Some("a".to_string()));
    replacements.insert("them".to_string(), Some("those".to_string()));

    assert_eq!(
        apply_replacements("the them theory", &replacements),
        "a those theory"
    );
}

#[test]
fn test_numbers_and_alphanumeric() {
    let mut replacements = ReplacementTable::new();
    replacements.insert("v2".to_string(), Some("version2".to_string()));
    replacements.insert("3d".to_string(), Some("three-dimensional".to_string()));

    assert_eq!(
        apply_replacements("v2 model in 3d space", &replacements),
        "version2 model in three-dimensional space"
    );
}
#[test]
fn test_its() {
    let mut replacements = ReplacementTable::new();
    replacements.insert("it it it".to_string(), Some("it".to_string()));

    assert_eq!(
        apply_replacements("hm it it it to it it", &replacements),
        "hm it to it it"
    );
}
#[test]
fn test_its_doubles() {
    let mut replacements = ReplacementTable::new();
    replacements.insert("it it it".to_string(), Some("it".to_string()));
    replacements.insert("it it".to_string(), Some("it".to_string()));

    assert_eq!(
        apply_replacements("hm it it it to it it", &replacements),
        "hm it to it"
    );
}


fn table(pairs: &[(&str, Option<&str>)]) -> ReplacementTable {
    let mut t = ReplacementTable::new();
    for (from, to) in pairs {
        t.insert(from.to_string(), to.map(|s| s.to_string()));
    }
    t
}

#[test]
fn the_default_fillers_are_deleted() {
    let mut config = Config::new_for_test(vec![], vec![], vec![], vec![]);
    config.transcription_replace_text = parse_replace_pairs(&Some("ui:UI".to_string()));
    assert_eq!(
        handle_transcribed_text("  Um, the ui is, uh; fine so. ".to_string(), &config),
        "the UI is, fine "
    );
    assert_eq!(handle_transcribed_text(" uh ".to_string(), &config), "");
    assert_eq!(handle_transcribed_text("uhm".to_string(), &config), "uhm");
}

#[test]
fn three_bytes_are_the_least() {
    let config = Config::new_for_test(vec![], vec![], vec![], vec![]);
    assert_eq!(handle_transcribed_text("abc".to_string(), &config), "abc");
    assert_eq!(handle_transcribed_text(" a b ".to_string(), &config), "a b");
    // two characters of three bytes
    assert_eq!(handle_transcribed_text(" \u{e9}a ".to_string(), &config), "\u{e9}a");
    assert_eq!(handle_transcribed_text("\u{e9}".to_string(), &config), "");
}

#[test]
fn words_next_to_letters_of_any_script_are_left_alone() {
    let t = table(&[("uh", None), ("caf\u{e9}", Some("coffee"))]);
    assert_eq!(apply_replacements("\u{e9}uh uh\u{e9} uh", &t), "\u{e9}uh uh\u{e9} ");
    assert_eq!(apply_replacements("un caf\u{e9}, uh", &t), "un coffee, ");
    assert_eq!(apply_replacements("caf\u{e9}s", &t), "caf\u{e9}s");
    assert_eq!(apply_replacements("uh_ _uh uh-uh", &t), "uh_ _uh -");
}

#[test]
fn matches_are_applied_by_their_byte_offsets() {
    let t = table(&[("b", Some("B")), ("\u{e9}", None)]);
    let text: Vec<char> = "a b \u{e9} b".chars().collect();
    // "b" at bytes 2..3 and 7..8, the accented letter at bytes 4..6
    let out = rewrite_matches(&text, &t, &vec![(2, 3), (4, 6), (7, 8)]);
    assert_eq!(out.iter().collect::<String>(), "a B B");
    // an offset inside a character, a match that runs backwards, one past the end
    let out = rewrite_matches(&text, &t, &vec![(2, 3), (5, 6), (8, 7), (7, 9)]);
    assert_eq!(out.iter().collect::<String>(), "a B \u{e9} b");
    // a match that begins before the end of the last deletion is skipped
    let d = table(&[("x", None), (" y", Some("Y"))]);
    let text: Vec<char> = "x, y".chars().collect();
    let out = rewrite_matches(&text, &d, &vec![(0, 1), (2, 4)]);
    assert_eq!(out.iter().collect::<String>(), "y");
    // a text that the table does not know changes nothing
    let out = rewrite_matches(&text, &d, &vec![(3, 4)]);
    assert_eq!(out.iter().collect::<String>(), "x, y");
}
