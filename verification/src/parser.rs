//! The pattern language.
//!
//! One pattern is a key name (`ControlLeft`), key names joined by `+` for a
//! combo (`ControlLeft+ShiftLeft`), or `double(KeyName)` or
//! `double(KeyName, timeout_ms)` for a double tap. Several patterns are
//! separated by `;`. A modifier named without a side (`Control`, `Shift`,
//! `Alt`, `Meta` and their synonyms) stands for both the left and the right
//! key: a pattern that names one becomes two patterns, a combo that names
//! several becomes one pattern for every choice of sides.

use crate::conflict_resolver::{all_wf, pattern_views};
use crate::key::Key;
use crate::patterns::combo::ComboModel;
use crate::patterns::double::DoubleTapModel;
use crate::patterns::single::SingleModel;
use crate::patterns::{ComboPattern, DoubleTapPattern, Pattern, PatternModel, SingleKeyPattern};
use crate::text::{
    contains_char, copy_range, has_prefix, is_text, parse_decimal, parse_u64,
    prefixed, split, split_on, starts_with, string_from_chars, text_views, to_chars, trim, trimmed,
};
use crate::types::{ConflictStrategy, ShortcutAction};
use vstd::prelude::*;
use vstd::string::*;

verus! {

/// The time limit of a double tap that names none.
pub const DEFAULT_DOUBLE_TAP_MS: u64 = 300;

/// Why a pattern could not be read.
#[derive(Debug)]
pub enum ParseError {
    InvalidFormat(String),
    UnknownKey(String),
    InvalidTimeout(String),
    EmptyPattern,
}

/// The mathematical content of a [`ParseError`].
pub enum ParseErrorModel {
    InvalidFormat(Seq<char>),
    UnknownKey(Seq<char>),
    InvalidTimeout(Seq<char>),
    EmptyPattern,
}

impl View for ParseError {
    type V = ParseErrorModel;

    open spec fn view(&self) -> ParseErrorModel {
        match *self {
            ParseError::InvalidFormat(t) => ParseErrorModel::InvalidFormat(t@),
            ParseError::UnknownKey(t) => ParseErrorModel::UnknownKey(t@),
            ParseError::InvalidTimeout(t) => ParseErrorModel::InvalidTimeout(t@),
            ParseError::EmptyPattern => ParseErrorModel::EmptyPattern,
        }
    }
}

/// The text of a parse error.
pub open spec fn parse_error_text(e: ParseErrorModel) -> Seq<char> {
    match e {
        ParseErrorModel::InvalidFormat(t) => "Invalid pattern format: "@ + t,
        ParseErrorModel::UnknownKey(t) => "Unknown key: "@ + t,
        ParseErrorModel::InvalidTimeout(t) => "Invalid timeout value: "@ + t,
        ParseErrorModel::EmptyPattern => "Empty pattern"@,
    }
}

impl ParseError {
    /// The error as a line of text.
    pub fn message(&self) -> (s: String)
        ensures
            s@ == parse_error_text(self@),
    {
        match self {
            ParseError::InvalidFormat(t) => prefixed("Invalid pattern format: ", t.as_str()),
            ParseError::UnknownKey(t) => prefixed("Unknown key: ", t.as_str()),
            ParseError::InvalidTimeout(t) => prefixed("Invalid timeout value: ", t.as_str()),
            ParseError::EmptyPattern => String::from_str("Empty pattern"),
        }
    }
}

/// The two keys that a modifier named without a side stands for.
pub open spec fn ambiguous_modifier(name: Seq<char>) -> Option<(Key, Key)> {
    if name == "Control"@ || name == "Ctrl"@ {
        Some((Key::ControlLeft, Key::ControlRight))
    } else if name == "Shift"@ {
        Some((Key::ShiftLeft, Key::ShiftRight))
    } else if name == "Alt"@ || name == "Option"@ {
        Some((Key::Alt, Key::AltGr))
    } else if name == "Meta"@ || name == "Cmd"@ || name == "Command"@ || name == "Win"@ || name == "Windows"@ || name == "Super"@ {
        Some((Key::MetaLeft, Key::MetaRight))
    } else {
        None
    }
}

/// The key that `name` names.
pub open spec fn key_named(name: Seq<char>) -> Option<Key> {
    if name == "CommandLeft"@ || name == "MetaLeft"@ {
        Some(Key::MetaLeft)
    } else if name == "CommandRight"@ || name == "MetaRight"@ {
        Some(Key::MetaRight)
    } else if name == "ControlLeft"@ {
        Some(Key::ControlLeft)
    } else if name == "ControlRight"@ {
        Some(Key::ControlRight)
    } else if name == "ShiftLeft"@ {
        Some(Key::ShiftLeft)
    } else if name == "ShiftRight"@ {
        Some(Key::ShiftRight)
    } else if name == "AltLeft"@ {
        Some(Key::Alt)
    } else if name == "AltRight"@ {
        Some(Key::AltGr)
    } else if name == "KeyA"@ || name == "A"@ {
        Some(Key::KeyA)
    } else if name == "KeyB"@ || name == "B"@ {
        Some(Key::KeyB)
    } else if name == "KeyC"@ || name == "C"@ {
        Some(Key::KeyC)
    } else if name == "KeyD"@ || name == "D"@ {
        Some(Key::KeyD)
    } else if name == "KeyE"@ || name == "E"@ {
        Some(Key::KeyE)
    } else if name == "KeyF"@ || name == "F"@ {
        Some(Key::KeyF)
    } else if name == "KeyG"@ || name == "G"@ {
        Some(Key::KeyG)
    } else if name == "KeyH"@ || name == "H"@ {
        Some(Key::KeyH)
    } else if name == "KeyI"@ || name == "I"@ {
        Some(Key::KeyI)
    } else if name == "KeyJ"@ || name == "J"@ {
        Some(Key::KeyJ)
    } else if name == "KeyK"@ || name == "K"@ {
        Some(Key::KeyK)
    } else if name == "KeyL"@ || name == "L"@ {
        Some(Key::KeyL)
    } else if name == "KeyM"@ || name == "M"@ {
        Some(Key::KeyM)
    } else if name == "KeyN"@ || name == "N"@ {
        Some(Key::KeyN)
    } else if name == "KeyO"@ || name == "O"@ {
        Some(Key::KeyO)
    } else if name == "KeyP"@ || name == "P"@ {
        Some(Key::KeyP)
    } else if name == "KeyQ"@ || name == "Q"@ {
        Some(Key::KeyQ)
    } else if name == "KeyR"@ || name == "R"@ {
        Some(Key::KeyR)
    } else if name == "KeyS"@ || name == "S"@ {
        Some(Key::KeyS)
    } else if name == "KeyT"@ || name == "T"@ {
        Some(Key::KeyT)
    } else if name == "KeyU"@ || name == "U"@ {
        Some(Key::KeyU)
    } else if name == "KeyV"@ || name == "V"@ {
        Some(Key::KeyV)
    } else if name == "KeyW"@ || name == "W"@ {
        Some(Key::KeyW)
    } else if name == "KeyX"@ || name == "X"@ {
        Some(Key::KeyX)
    } else if name == "KeyY"@ || name == "Y"@ {
        Some(Key::KeyY)
    } else if name == "KeyZ"@ || name == "Z"@ {
        Some(Key::KeyZ)
    } else if name == "Escape"@ || name == "Esc"@ {
        Some(Key::Escape)
    } else if name == "Space"@ {
        Some(Key::Space)
    } else if name == "Return"@ || name == "Enter"@ {
        Some(Key::Return)
    } else if name == "Tab"@ {
        Some(Key::Tab)
    } else if name == "Backspace"@ {
        Some(Key::Backspace)
    } else if name == "Delete"@ {
        Some(Key::Delete)
    } else if name == "F1"@ {
        Some(Key::F1)
    } else if name == "F2"@ {
        Some(Key::F2)
    } else if name == "F3"@ {
        Some(Key::F3)
    } else if name == "F4"@ {
        Some(Key::F4)
    } else if name == "F5"@ {
        Some(Key::F5)
    } else if name == "F6"@ {
        Some(Key::F6)
    } else if name == "F7"@ {
        Some(Key::F7)
    } else if name == "F8"@ {
        Some(Key::F8)
    } else if name == "F9"@ {
        Some(Key::F9)
    } else if name == "F10"@ {
        Some(Key::F10)
    } else if name == "F11"@ {
        Some(Key::F11)
    } else if name == "F12"@ {
        Some(Key::F12)
    } else {
        None
    }
}

fn parse_ambiguous_modifier_key(name: &[char]) -> (r: Option<(Key, Key)>)
    ensures
        r == ambiguous_modifier(name@),
{
    if is_text(name, "Control") || is_text(name, "Ctrl") {
        Some((Key::ControlLeft, Key::ControlRight))
    } else if is_text(name, "Shift") {
        Some((Key::ShiftLeft, Key::ShiftRight))
    } else if is_text(name, "Alt") || is_text(name, "Option") {
        Some((Key::Alt, Key::AltGr))
    } else if is_text(name, "Meta") || is_text(name, "Cmd") || is_text(name, "Command") || is_text(name, "Win") || is_text(name, "Windows") || is_text(name, "Super") {
        Some((Key::MetaLeft, Key::MetaRight))
    } else {
        None
    }
}

fn lookup_key(name: &[char]) -> (r: Option<Key>)
    ensures
        r == key_named(name@),
{
    if is_text(name, "CommandLeft") || is_text(name, "MetaLeft") {
        Some(Key::MetaLeft)
    } else if is_text(name, "CommandRight") || is_text(name, "MetaRight") {
        Some(Key::MetaRight)
    } else if is_text(name, "ControlLeft") {
        Some(Key::ControlLeft)
    } else if is_text(name, "ControlRight") {
        Some(Key::ControlRight)
    } else if is_text(name, "ShiftLeft") {
        Some(Key::ShiftLeft)
    } else if is_text(name, "ShiftRight") {
        Some(Key::ShiftRight)
    } else if is_text(name, "AltLeft") {
        Some(Key::Alt)
    } else if is_text(name, "AltRight") {
        Some(Key::AltGr)
    } else if is_text(name, "KeyA") || is_text(name, "A") {
        Some(Key::KeyA)
    } else if is_text(name, "KeyB") || is_text(name, "B") {
        Some(Key::KeyB)
    } else if is_text(name, "KeyC") || is_text(name, "C") {
        Some(Key::KeyC)
    } else if is_text(name, "KeyD") || is_text(name, "D") {
        Some(Key::KeyD)
    } else if is_text(name, "KeyE") || is_text(name, "E") {
        Some(Key::KeyE)
    } else if is_text(name, "KeyF") || is_text(name, "F") {
        Some(Key::KeyF)
    } else if is_text(name, "KeyG") || is_text(name, "G") {
        Some(Key::KeyG)
    } else if is_text(name, "KeyH") || is_text(name, "H") {
        Some(Key::KeyH)
    } else if is_text(name, "KeyI") || is_text(name, "I") {
        Some(Key::KeyI)
    } else if is_text(name, "KeyJ") || is_text(name, "J") {
        Some(Key::KeyJ)
    } else if is_text(name, "KeyK") || is_text(name, "K") {
        Some(Key::KeyK)
    } else if is_text(name, "KeyL") || is_text(name, "L") {
        Some(Key::KeyL)
    } else if is_text(name, "KeyM") || is_text(name, "M") {
        Some(Key::KeyM)
    } else if is_text(name, "KeyN") || is_text(name, "N") {
        Some(Key::KeyN)
    } else if is_text(name, "KeyO") || is_text(name, "O") {
        Some(Key::KeyO)
    } else if is_text(name, "KeyP") || is_text(name, "P") {
        Some(Key::KeyP)
    } else if is_text(name, "KeyQ") || is_text(name, "Q") {
        Some(Key::KeyQ)
    } else if is_text(name, "KeyR") || is_text(name, "R") {
        Some(Key::KeyR)
    } else if is_text(name, "KeyS") || is_text(name, "S") {
        Some(Key::KeyS)
    } else if is_text(name, "KeyT") || is_text(name, "T") {
        Some(Key::KeyT)
    } else if is_text(name, "KeyU") || is_text(name, "U") {
        Some(Key::KeyU)
    } else if is_text(name, "KeyV") || is_text(name, "V") {
        Some(Key::KeyV)
    } else if is_text(name, "KeyW") || is_text(name, "W") {
        Some(Key::KeyW)
    } else if is_text(name, "KeyX") || is_text(name, "X") {
        Some(Key::KeyX)
    } else if is_text(name, "KeyY") || is_text(name, "Y") {
        Some(Key::KeyY)
    } else if is_text(name, "KeyZ") || is_text(name, "Z") {
        Some(Key::KeyZ)
    } else if is_text(name, "Escape") || is_text(name, "Esc") {
        Some(Key::Escape)
    } else if is_text(name, "Space") {
        Some(Key::Space)
    } else if is_text(name, "Return") || is_text(name, "Enter") {
        Some(Key::Return)
    } else if is_text(name, "Tab") {
        Some(Key::Tab)
    } else if is_text(name, "Backspace") {
        Some(Key::Backspace)
    } else if is_text(name, "Delete") {
        Some(Key::Delete)
    } else if is_text(name, "F1") {
        Some(Key::F1)
    } else if is_text(name, "F2") {
        Some(Key::F2)
    } else if is_text(name, "F3") {
        Some(Key::F3)
    } else if is_text(name, "F4") {
        Some(Key::F4)
    } else if is_text(name, "F5") {
        Some(Key::F5)
    } else if is_text(name, "F6") {
        Some(Key::F6)
    } else if is_text(name, "F7") {
        Some(Key::F7)
    } else if is_text(name, "F8") {
        Some(Key::F8)
    } else if is_text(name, "F9") {
        Some(Key::F9)
    } else if is_text(name, "F10") {
        Some(Key::F10)
    } else if is_text(name, "F11") {
        Some(Key::F11)
    } else if is_text(name, "F12") {
        Some(Key::F12)
    } else {
        None
    }
}

fn parse_key_name(name: &[char]) -> (r: Result<Key, ParseError>)
    ensures
        match r {
            Ok(k) => key_named(name@) == Some(k),
            Err(e) => key_named(name@) is None && e@ == ParseErrorModel::UnknownKey(name@),
        },
{
    match lookup_key(name) {
        Some(k) => Ok(k),
        None => Err(ParseError::UnknownKey(string_from_chars(name))),
    }
}

/// What reading a text yields: the patterns it writes, or the first error.
pub type Parsed = Result<Seq<PatternModel>, ParseErrorModel>;

/// A fresh single-key pattern.
pub open spec fn single_of(key: Key, action: ShortcutAction) -> PatternModel {
    PatternModel::Single(
        SingleModel {
            key,
            action,
            conflict_strategy: ConflictStrategy::Immediate,
            press_time: None,
        },
    )
}

/// A fresh double-tap pattern.
pub open spec fn double_of(key: Key, timeout_ms: u64, action: ShortcutAction) -> PatternModel {
    PatternModel::DoubleTap(
        DoubleTapModel { target_key: key, timeout_ms, action, first_press: None },
    )
}

/// A fresh combo pattern.
pub open spec fn combo_of(sequence: Seq<Key>, action: ShortcutAction) -> PatternModel {
    PatternModel::Combo(
        ComboModel { sequence, current_index: 0, held: Set::empty(), action },
    )
}

/// What a key name alone writes.
pub open spec fn read_single(name: Seq<char>, action: ShortcutAction) -> Parsed {
    match ambiguous_modifier(name) {
        Some((left, right)) => Ok(seq![single_of(left, action), single_of(right, action)]),
        None => match key_named(name) {
            Some(key) => Ok(seq![single_of(key, action)]),
            None => Err(ParseErrorModel::UnknownKey(name)),
        },
    }
}

/// Every sequence with `key` at its end.
pub open spec fn with_key(sequences: Seq<Seq<Key>>, key: Key) -> Seq<Seq<Key>> {
    Seq::new(sequences.len(), |i: int| sequences[i].push(key))
}

/// Every sequence twice: with `left` at its end, then with `right`.
pub open spec fn with_either(sequences: Seq<Seq<Key>>, left: Key, right: Key) -> Seq<Seq<Key>> {
    Seq::new(
        2 * sequences.len(),
        |i: int|
            sequences[i / 2].push(
                if i % 2 == 0 {
                    left
                } else {
                    right
                },
            ),
    )
}

/// The key sequences that the first `n` names of a combo write. A combo whose
/// choices of sides are more than a `usize` can count is refused as
/// ill-formed, under the combo's text.
pub open spec fn expand(input: Seq<char>, names: Seq<Seq<char>>, n: nat) -> Result<
    Seq<Seq<Key>>,
    ParseErrorModel,
>
    decreases n,
{
    if n == 0 {
        Ok(seq![Seq::<Key>::empty()])
    } else {
        match expand(input, names, (n - 1) as nat) {
            Err(e) => Err(e),
            Ok(sequences) => {
                let name = trim(names[n - 1]);
                match ambiguous_modifier(name) {
                    Some((left, right)) => if 2 * sequences.len() > usize::MAX {
                        Err(ParseErrorModel::InvalidFormat(input))
                    } else {
                        Ok(with_either(sequences, left, right))
                    },
                    None => match key_named(name) {
                        Some(key) => Ok(with_key(sequences, key)),
                        None => Err(ParseErrorModel::UnknownKey(name)),
                    },
                }
            },
        }
    }
}

/// The first error ends the expansion.
pub proof fn lemma_expand_error(input: Seq<char>, names: Seq<Seq<char>>, k: nat, n: nat)
    requires
        k <= n,
        expand(input, names, k) is Err,
    ensures
        expand(input, names, n) == expand(input, names, k),
    decreases n - k,
{
    if k < n {
        lemma_expand_error(input, names, k, (n - 1) as nat);
    }
}

/// The first error ends the reading.
pub proof fn lemma_read_pieces_error(
    pieces: Seq<Seq<char>>,
    k: nat,
    n: nat,
    action: ShortcutAction,
)
    requires
        k <= n,
        read_pieces(pieces, k, action) is Err,
    ensures
        read_pieces(pieces, n, action) == read_pieces(pieces, k, action),
    decreases n - k,
{
    if k < n {
        lemma_read_pieces_error(pieces, k, (n - 1) as nat, action);
    }
}

/// Whether every sequence has `n` keys.
pub open spec fn all_of_length(sequences: Seq<Seq<Key>>, n: nat) -> bool {
    forall|j: int| 0 <= j < sequences.len() ==> (#[trigger] sequences[j]).len() == n
}

/// One combo for each sequence.
pub open spec fn combos_of(sequences: Seq<Seq<Key>>, action: ShortcutAction) -> Seq<PatternModel> {
    Seq::new(sequences.len(), |i: int| combo_of(sequences[i], action))
}

/// What key names joined by `+` write.
pub open spec fn read_combo(input: Seq<char>, action: ShortcutAction) -> Parsed {
    let names = split(input, '+');
    match expand(input, names, names.len()) {
        Err(e) => Err(e),
        Ok(sequences) => Ok(combos_of(sequences, action)),
    }
}

/// Whether `input` has the outer form of a double tap.
pub open spec fn is_double_form(input: Seq<char>) -> bool {
    starts_with(input, "double("@) && input.len() >= 8 && input.last() == ')'
}

/// What `double(...)` writes.
pub open spec fn read_double(input: Seq<char>, action: ShortcutAction) -> Parsed {
    if !is_double_form(input) {
        Err(ParseErrorModel::InvalidFormat(input))
    } else {
        let parts = split(input.subrange(7, input.len() - 1), ',');
        let timeout_text = trim(parts[1]);
        if parts.len() > 1 && parse_u64(timeout_text) is None {
            Err(ParseErrorModel::InvalidTimeout(timeout_text))
        } else {
            let timeout_ms = if parts.len() > 1 {
                parse_u64(timeout_text)->0
            } else {
                DEFAULT_DOUBLE_TAP_MS
            };
            let name = trim(parts[0]);
            match ambiguous_modifier(name) {
                Some((left, right)) => Ok(
                    seq![double_of(left, timeout_ms, action), double_of(right, timeout_ms, action)],
                ),
                None => match key_named(name) {
                    Some(key) => Ok(seq![double_of(key, timeout_ms, action)]),
                    None => Err(ParseErrorModel::UnknownKey(name)),
                },
            }
        }
    }
}

/// What one pattern text writes.
pub open spec fn read_pattern(input: Seq<char>, action: ShortcutAction) -> Parsed {
    let text = trim(input);
    if text.len() == 0 {
        Err(ParseErrorModel::EmptyPattern)
    } else if starts_with(text, "double("@) && text.last() == ')' {
        read_double(text, action)
    } else if text.contains('+') {
        read_combo(text, action)
    } else {
        read_single(text, action)
    }
}

/// What the first `n` pieces of a list of pattern texts write: the patterns
/// of each piece that is not blank, in order, up to the first error.
pub open spec fn read_pieces(pieces: Seq<Seq<char>>, n: nat, action: ShortcutAction) -> Parsed
    decreases n,
{
    if n == 0 {
        Ok(Seq::empty())
    } else {
        match read_pieces(pieces, (n - 1) as nat, action) {
            Err(e) => Err(e),
            Ok(before) => {
                let piece = trim(pieces[n - 1]);
                if piece.len() == 0 {
                    Ok(before)
                } else {
                    match read_pattern(piece, action) {
                        Err(e) => Err(e),
                        Ok(patterns) => Ok(before + patterns),
                    }
                }
            },
        }
    }
}

/// What pattern texts separated by `;` write.
pub open spec fn read_patterns(input: Seq<char>, action: ShortcutAction) -> Parsed {
    let pieces = split(input, ';');
    read_pieces(pieces, pieces.len(), action)
}

/// Whether `r` is what `expected` says, pattern for pattern or error for
/// error, with every pattern well formed.
pub open spec fn parsed_as(r: Result<Vec<Pattern>, ParseError>, expected: Parsed) -> bool {
    match r {
        Ok(patterns) => expected == Ok::<Seq<PatternModel>, ParseErrorModel>(
            pattern_views(patterns@),
        ) && all_wf(patterns@),
        Err(e) => expected == Err::<Seq<PatternModel>, ParseErrorModel>(e@),
    }
}

fn copy_keys(keys: &Vec<Key>) -> (v: Vec<Key>)
    ensures
        v@ == keys@,
{
    let mut v: Vec<Key> = Vec::new();
    let mut i: usize = 0;
    while i < keys.len()
        invariant
            i <= keys@.len(),
            v@ == keys@.take(i as int),
        decreases keys@.len() - i,
    {
        v.push(keys[i]);
        assert(keys@.take(i + 1) =~= keys@.take(i as int).push(keys@[i as int]));
        i += 1;
    }
    assert(keys@.take(i as int) =~= keys@);
    v
}

/// The contents of each key sequence in a list.
pub open spec fn key_views(sequences: Seq<Vec<Key>>) -> Seq<Seq<Key>> {
    Seq::new(sequences.len(), |i: int| sequences[i]@)
}

fn parse_single_key(name: &[char], action: ShortcutAction) -> (r: Result<Vec<Pattern>, ParseError>)
    ensures
        parsed_as(r, read_single(name@, action)),
{
    let mut patterns: Vec<Pattern> = Vec::new();
    match parse_ambiguous_modifier_key(name) {
        Some((left, right)) => {
            patterns.push(Pattern::Single(SingleKeyPattern::new(left, action)));
            patterns.push(Pattern::Single(SingleKeyPattern::new(right, action)));
            assert(pattern_views(patterns@) =~= seq![
                single_of(left, action),
                single_of(right, action),
            ]);
            Ok(patterns)
        },
        None => {
            let key = parse_key_name(name)?;
            patterns.push(Pattern::Single(SingleKeyPattern::new(key, action)));
            assert(pattern_views(patterns@) =~= seq![single_of(key, action)]);
            Ok(patterns)
        },
    }
}

fn extend_with_key(sequences: &mut Vec<Vec<Key>>, key: Key)
    ensures
        key_views(final(sequences)@) == with_key(key_views(old(sequences)@), key),
{
    let ghost before = key_views(sequences@);
    let n = sequences.len();
    let mut i: usize = 0;
    while i < n
        invariant
            n == sequences@.len(),
            before.len() == n,
            i <= n,
            forall|j: int| 0 <= j < i ==> (#[trigger] sequences@[j])@ == before[j].push(key),
            forall|j: int| i <= j < n ==> (#[trigger] sequences@[j])@ == before[j],
        decreases n - i,
    {
        sequences[i].push(key);
        i += 1;
    }
    assert(key_views(sequences@) =~= with_key(before, key));
}

fn extend_with_either(sequences: &Vec<Vec<Key>>, left: Key, right: Key) -> (out: Vec<Vec<Key>>)
    requires
        sequences@.len() * 2 <= usize::MAX,
    ensures
        key_views(out@) == with_either(key_views(sequences@), left, right),
{
    let ghost before = key_views(sequences@);
    let mut out: Vec<Vec<Key>> = Vec::new();
    let mut i: usize = 0;
    while i < sequences.len()
        invariant
            i <= sequences@.len(),
            before == key_views(sequences@),
            out@.len() == 2 * i,
            forall|j: int|
                0 <= j < out@.len() ==> (#[trigger] out@[j])@ == with_either(before, left, right)[j],
        decreases sequences@.len() - i,
    {
        let mut with_left = copy_keys(&sequences[i]);
        with_left.push(left);
        let mut with_right = copy_keys(&sequences[i]);
        with_right.push(right);
        assert(before[i as int] == sequences@[i as int]@);
        out.push(with_left);
        out.push(with_right);
        i += 1;
    }
    assert(key_views(out@) =~= with_either(before, left, right));
    out
}

fn parse_combo(input: &[char], action: ShortcutAction) -> (r: Result<Vec<Pattern>, ParseError>)
    ensures
        parsed_as(r, read_combo(input@, action)),
{
    let names = split_on(input, '+');
    let ghost name_texts = text_views(names@);
    let mut sequences: Vec<Vec<Key>> = Vec::new();
    sequences.push(Vec::new());
    assert(key_views(sequences@) =~= seq![Seq::<Key>::empty()]);
    let mut n: usize = 0;
    while n < names.len()
        invariant
            n <= names@.len(),
            name_texts == text_views(names@),
            name_texts == split(input@, '+'),
            expand(input@, name_texts, n as nat) == Ok::<Seq<Seq<Key>>, ParseErrorModel>(
                key_views(sequences@),
            ),
            sequences@.len() >= 1,
            all_of_length(key_views(sequences@), n as nat),
        decreases names@.len() - n,
    {
        let name = trimmed(names[n].as_slice());
        assert(name@ == trim(name_texts[n as int]));
        let ghost before = key_views(sequences@);
        match parse_ambiguous_modifier_key(name.as_slice()) {
            Some((left, right)) => {
                if sequences.len() > usize::MAX / 2 {
                    proof {
                        lemma_expand_error(
                            input@,
                            name_texts,
                            (n + 1) as nat,
                            names@.len() as nat,
                        );
                    }
                    return Err(ParseError::InvalidFormat(string_from_chars(input)));
                }
                sequences = extend_with_either(&sequences, left, right);
                assert(key_views(sequences@).len() == sequences@.len());
                assert(all_of_length(with_either(before, left, right), (n + 1) as nat));
            },
            None => match parse_key_name(name.as_slice()) {
                Ok(key) => {
                    extend_with_key(&mut sequences, key);
                    assert(key_views(sequences@).len() == sequences@.len());
                    assert(all_of_length(with_key(before, key), (n + 1) as nat));
                },
                Err(e) => {
                    proof {
                        lemma_expand_error(
                            input@,
                            name_texts,
                            (n + 1) as nat,
                            names@.len() as nat,
                        );
                    }
                    return Err(e);
                },
            },
        }
        n += 1;
    }
    let mut patterns: Vec<Pattern> = Vec::new();
    let ghost sequence_views = key_views(sequences@);
    let mut i: usize = 0;
    while i < sequences.len()
        invariant
            i <= sequences@.len(),
            names@.len() >= 1,
            sequence_views == key_views(sequences@),
            all_of_length(sequence_views, names@.len() as nat),
            all_wf(patterns@),
            pattern_views(patterns@) == combos_of(sequence_views, action).take(i as int),
        decreases sequences@.len() - i,
    {
        let keys = copy_keys(&sequences[i]);
        assert(keys@ == sequence_views[i as int]);
        let ghost before = pattern_views(patterns@);
        let pattern = Pattern::Combo(ComboPattern::new(keys, action));
        patterns.push(pattern);
        assert(pattern_views(patterns@) =~= before.push(combo_of(sequence_views[i as int], action)));
        assert(combos_of(sequence_views, action).take(i + 1) =~= combos_of(
            sequence_views,
            action,
        ).take(i as int).push(combo_of(sequence_views[i as int], action)));
        i += 1;
    }
    assert(combos_of(sequence_views, action).take(i as int) =~= combos_of(sequence_views, action));
    Ok(patterns)
}

/// Reads a double tap: `double(KeyName)` or `double(KeyName, timeout_ms)`.
pub fn parse_double_tap(input: &[char], action: ShortcutAction) -> (r: Result<
    Vec<Pattern>,
    ParseError,
>)
    ensures
        parsed_as(r, read_double(input@, action)),
{
    if !(has_prefix(input, "double(") && input.len() >= 8 && input[input.len() - 1] == ')') {
        return Err(ParseError::InvalidFormat(string_from_chars(input)));
    }
    let content = copy_range(input, 7, input.len() - 1);
    let parts = split_on(content.as_slice(), ',');
    let ghost part_texts = text_views(parts@);
    let timeout_ms = if parts.len() > 1 {
        let timeout_text = trimmed(parts[1].as_slice());
        assert(timeout_text@ == trim(part_texts[1]));
        match parse_decimal(timeout_text.as_slice()) {
            Some(t) => t,
            None => {
                return Err(ParseError::InvalidTimeout(string_from_chars(timeout_text.as_slice())));
            },
        }
    } else {
        DEFAULT_DOUBLE_TAP_MS
    };
    let name = trimmed(parts[0].as_slice());
    assert(name@ == trim(part_texts[0]));
    let mut patterns: Vec<Pattern> = Vec::new();
    match parse_ambiguous_modifier_key(name.as_slice()) {
        Some((left, right)) => {
            patterns.push(Pattern::DoubleTap(DoubleTapPattern::new(left, timeout_ms, action)));
            patterns.push(Pattern::DoubleTap(DoubleTapPattern::new(right, timeout_ms, action)));
            assert(pattern_views(patterns@) =~= seq![
                double_of(left, timeout_ms, action),
                double_of(right, timeout_ms, action),
            ]);
            Ok(patterns)
        },
        None => {
            let key = parse_key_name(name.as_slice())?;
            patterns.push(Pattern::DoubleTap(DoubleTapPattern::new(key, timeout_ms, action)));
            assert(pattern_views(patterns@) =~= seq![double_of(key, timeout_ms, action)]);
            Ok(patterns)
        },
    }
}

fn parse_pattern_chars(input: &[char], action: ShortcutAction) -> (r: Result<
    Vec<Pattern>,
    ParseError,
>)
    ensures
        parsed_as(r, read_pattern(input@, action)),
{
    let text = trimmed(input);
    if text.len() == 0 {
        return Err(ParseError::EmptyPattern);
    }
    if has_prefix(text.as_slice(), "double(") && text[text.len() - 1] == ')' {
        proof {
            reveal_strlit("double(");
            assert("double("@.len() == 7);
            assert("double("@[6] == '(');
            assert(text@.take(7)[6] == text@[6]);
        }
        parse_double_tap(text.as_slice(), action)
    } else if contains_char(text.as_slice(), '+') {
        parse_combo(text.as_slice(), action)
    } else {
        parse_single_key(text.as_slice(), action)
    }
}

/// Reads one pattern text for `action`.
///
/// Succeeds exactly on a text that, trimmed, is a known key name, known key
/// names joined by `+`, or a double tap of a known key name with a time limit
/// that is a `u64` in decimal if there is one. The patterns are fresh: nothing
/// pressed, single keys firing at once.
pub fn parse_pattern(input: &str, action: ShortcutAction) -> (r: Result<Vec<Pattern>, ParseError>)
    ensures
        parsed_as(r, read_pattern(input@, action)),
{
    let chars = to_chars(input);
    parse_pattern_chars(chars.as_slice(), action)
}

/// Reads pattern texts separated by `;` for `action`. Blank pieces are
/// skipped; the first piece that cannot be read fails the whole text.
pub fn parse_multiple_patterns(input: &str, action: ShortcutAction) -> (r: Result<
    Vec<Pattern>,
    ParseError,
>)
    ensures
        parsed_as(r, read_patterns(input@, action)),
{
    let chars = to_chars(input);
    let pieces = split_on(chars.as_slice(), ';');
    let ghost piece_texts = text_views(pieces@);
    let mut result: Vec<Pattern> = Vec::new();
    let mut n: usize = 0;
    assert(pattern_views(result@) =~= Seq::<PatternModel>::empty());
    while n < pieces.len()
        invariant
            n <= pieces@.len(),
            piece_texts == text_views(pieces@),
            piece_texts == split(input@, ';'),
            all_wf(result@),
            read_pieces(piece_texts, n as nat, action) == Ok::<Seq<PatternModel>, ParseErrorModel>(
                pattern_views(result@),
            ),
        decreases pieces@.len() - n,
    {
        let piece = trimmed(pieces[n].as_slice());
        assert(piece@ == trim(piece_texts[n as int]));
        if piece.len() > 0 {
            match parse_pattern_chars(piece.as_slice(), action) {
                Ok(mut patterns) => {
                    let ghost before = pattern_views(result@);
                    let ghost added = pattern_views(patterns@);
                    let ghost old_result = result@;
                    let ghost old_patterns = patterns@;
                    result.append(&mut patterns);
                    assert(result@ == old_result + old_patterns);
                    assert(pattern_views(result@) =~= before + added);
                    assert(all_wf(result@)) by {
                        assert forall|i: int| 0 <= i < result@.len() implies (
                        #[trigger] result@[i]).wf() by {
                            if i < old_result.len() {
                                assert(result@[i] == old_result[i]);
                            } else {
                                assert(result@[i] == old_patterns[i - old_result.len()]);
                            }
                        }
                    }
                },
                Err(e) => {
                    proof {
                        lemma_read_pieces_error(
                            piece_texts,
                            (n + 1) as nat,
                            pieces@.len() as nat,
                            action,
                        );
                    }
                    return Err(e);
                },
            }
        }
        n += 1;
    }
    Ok(result)
}

} // verus!
