//! The three kinds of pattern and the one type that holds any of them.

pub mod combo;
pub mod double;
pub mod single;

pub use combo::ComboPattern;
pub use double::DoubleTapPattern;
pub use single::SingleKeyPattern;

use crate::key::Key;
use crate::types::{MatchOutcome, MatchResult, PatternType, ShortcutAction};
use combo::{combo_press, combo_release, combo_reset, ComboModel};
use double::{double_expired, double_press, double_reset, DoubleTapModel};
use single::{single_press, single_release, single_reset, SingleModel};
use vstd::prelude::*;

verus! {

/// Any pattern.
#[derive(Debug)]
pub enum Pattern {
    Single(SingleKeyPattern),
    Combo(ComboPattern),
    DoubleTap(DoubleTapPattern),
}

/// The mathematical content of a [`Pattern`].
pub enum PatternModel {
    Single(SingleModel),
    Combo(ComboModel),
    DoubleTap(DoubleTapModel),
}

impl View for Pattern {
    type V = PatternModel;

    open spec fn view(&self) -> PatternModel {
        match *self {
            Pattern::Single(p) => PatternModel::Single(p@),
            Pattern::Combo(p) => PatternModel::Combo(p@),
            Pattern::DoubleTap(p) => PatternModel::DoubleTap(p@),
        }
    }
}

/// Whether a pattern's content is sound: a combo has a sequence and its index
/// lies within it.
pub open spec fn pattern_ok(m: PatternModel) -> bool {
    match m {
        PatternModel::Combo(c) => c.sequence.len() > 0 && c.current_index <= c.sequence.len(),
        _ => true,
    }
}

/// The pattern and its answer after a press of `key` at `now`.
pub open spec fn pattern_press(m: PatternModel, key: Key, now: u64) -> (
    PatternModel,
    MatchOutcome,
) {
    match m {
        PatternModel::Single(s) => (
            PatternModel::Single(single_press(s, key, now).0),
            single_press(s, key, now).1,
        ),
        PatternModel::Combo(c) => (PatternModel::Combo(combo_press(c, key).0), combo_press(c, key).1),
        PatternModel::DoubleTap(d) => (
            PatternModel::DoubleTap(double_press(d, key, now).0),
            double_press(d, key, now).1,
        ),
    }
}

/// The pattern and its answer after a release of `key` at `now`.
pub open spec fn pattern_release(m: PatternModel, key: Key, now: u64) -> (
    PatternModel,
    MatchOutcome,
) {
    match m {
        PatternModel::Single(s) => (
            PatternModel::Single(single_release(s, key, now).0),
            single_release(s, key, now).1,
        ),
        PatternModel::Combo(c) => (PatternModel::Combo(combo_release(c, key)), MatchOutcome::NoMatch),
        PatternModel::DoubleTap(d) => (m, MatchOutcome::NoMatch),
    }
}

/// The pattern with no match in progress.
pub open spec fn pattern_reset(m: PatternModel) -> PatternModel {
    match m {
        PatternModel::Single(s) => PatternModel::Single(single_reset(s)),
        PatternModel::Combo(c) => PatternModel::Combo(combo_reset(c)),
        PatternModel::DoubleTap(d) => PatternModel::DoubleTap(double_reset(d)),
    }
}

/// Whether the pattern's time has run out: only a double tap expires.
pub open spec fn pattern_expired(m: PatternModel, now: u64) -> bool {
    match m {
        PatternModel::DoubleTap(d) => double_expired(d, now),
        _ => false,
    }
}

/// The first key that can start the pattern.
pub open spec fn trigger_key(m: PatternModel) -> Key {
    match m {
        PatternModel::Single(s) => s.key,
        PatternModel::Combo(c) => c.sequence[0],
        PatternModel::DoubleTap(d) => d.target_key,
    }
}

/// The kind of the pattern.
pub open spec fn pattern_type(m: PatternModel) -> PatternType {
    match m {
        PatternModel::Single(_) => PatternType::Single,
        PatternModel::Combo(_) => PatternType::Combo,
        PatternModel::DoubleTap(_) => PatternType::DoubleTap,
    }
}

/// The pattern's time limit: only a double tap has one.
pub open spec fn pattern_timeout(m: PatternModel) -> Option<u64> {
    match m {
        PatternModel::DoubleTap(d) => Some(d.timeout_ms),
        _ => None,
    }
}

/// The action that the pattern stands for.
pub open spec fn pattern_action(m: PatternModel) -> ShortcutAction {
    match m {
        PatternModel::Single(s) => s.action,
        PatternModel::Combo(c) => c.action,
        PatternModel::DoubleTap(d) => d.action,
    }
}

/// Whether a match is in progress.
pub open spec fn partial_match(m: PatternModel) -> bool {
    match m {
        PatternModel::Single(s) => s.press_time is Some,
        PatternModel::Combo(c) => c.current_index > 0,
        PatternModel::DoubleTap(d) => d.first_press is Some,
    }
}

/// Whether `key` occurs in the pattern at all.
pub open spec fn could_match(m: PatternModel, key: Key) -> bool {
    match m {
        PatternModel::Combo(c) => c.sequence.contains(key),
        _ => trigger_key(m) == key,
    }
}

/// Pressing, releasing and resetting keep a pattern sound and leave its
/// trigger key, kind, time limit and action alone.
pub proof fn lemma_pattern_steps(m: PatternModel, key: Key, now: u64)
    requires
        pattern_ok(m),
    ensures
        pattern_ok(pattern_press(m, key, now).0),
        pattern_ok(pattern_release(m, key, now).0),
        pattern_ok(pattern_reset(m)),
        same_identity(pattern_press(m, key, now).0, m),
        same_identity(pattern_release(m, key, now).0, m),
        same_identity(pattern_reset(m), m),
{
}

/// Whether two patterns differ at most in how far their match has come.
pub open spec fn same_identity(a: PatternModel, b: PatternModel) -> bool {
    &&& trigger_key(a) == trigger_key(b)
    &&& pattern_type(a) == pattern_type(b)
    &&& pattern_timeout(a) == pattern_timeout(b)
    &&& pattern_action(a) == pattern_action(b)
    &&& match (a, b) {
        (PatternModel::Single(x), PatternModel::Single(y)) => x.conflict_strategy
            == y.conflict_strategy,
        (PatternModel::Combo(x), PatternModel::Combo(y)) => x.sequence == y.sequence,
        (PatternModel::DoubleTap(_), PatternModel::DoubleTap(_)) => true,
        _ => false,
    }
}

impl Pattern {
    /// The invariant of the pattern inside.
    pub open spec fn wf(&self) -> bool {
        match *self {
            Pattern::Combo(p) => p.wf(),
            _ => true,
        }
    }

    /// A well-formed pattern has sound content.
    pub proof fn lemma_wf(&self)
        requires
            self.wf(),
        ensures
            pattern_ok(self@),
    {
        match *self {
            Pattern::Combo(p) => {
                p.lemma_wf();
            },
            _ => {},
        }
    }

    pub fn process_key_press(&mut self, key: Key, now: u64) -> (r: MatchResult)
        requires
            old(self).wf(),
        ensures
            final(self).wf(),
            final(self)@ == pattern_press(old(self)@, key, now).0,
            r@ == pattern_press(old(self)@, key, now).1,
    {
        match self {
            Pattern::Single(p) => p.process_key_press(key, now),
            Pattern::Combo(p) => p.process_key_press(key, now),
            Pattern::DoubleTap(p) => p.process_key_press(key, now),
        }
    }

    pub fn process_key_release(&mut self, key: Key, now: u64) -> (r: MatchResult)
        requires
            old(self).wf(),
        ensures
            final(self).wf(),
            final(self)@ == pattern_release(old(self)@, key, now).0,
            r@ == pattern_release(old(self)@, key, now).1,
    {
        match self {
            Pattern::Single(p) => p.process_key_release(key, now),
            Pattern::Combo(p) => p.process_key_release(key, now),
            Pattern::DoubleTap(p) => p.process_key_release(key, now),
        }
    }

    pub fn reset(&mut self)
        requires
            old(self).wf(),
        ensures
            final(self).wf(),
            final(self)@ == pattern_reset(old(self)@),
    {
        match self {
            Pattern::Single(p) => p.reset(),
            Pattern::Combo(p) => p.reset(),
            Pattern::DoubleTap(p) => p.reset(),
        }
    }

    pub fn is_expired(&self, now: u64) -> (b: bool)
        ensures
            b == pattern_expired(self@, now),
    {
        match self {
            Pattern::Single(p) => p.is_expired(now),
            Pattern::Combo(p) => p.is_expired(now),
            Pattern::DoubleTap(p) => p.is_expired(now),
        }
    }

    pub fn get_trigger_key(&self) -> (k: Key)
        requires
            self.wf(),
        ensures
            k == trigger_key(self@),
    {
        match self {
            Pattern::Single(p) => p.get_trigger_key(),
            Pattern::Combo(p) => p.get_trigger_key(),
            Pattern::DoubleTap(p) => p.get_trigger_key(),
        }
    }

    pub fn get_type(&self) -> (t: PatternType)
        ensures
            t == pattern_type(self@),
    {
        match self {
            Pattern::Single(p) => p.get_type(),
            Pattern::Combo(p) => p.get_type(),
            Pattern::DoubleTap(p) => p.get_type(),
        }
    }

    pub fn get_timeout(&self) -> (t: Option<u64>)
        ensures
            t == pattern_timeout(self@),
    {
        match self {
            Pattern::Single(p) => p.get_timeout(),
            Pattern::Combo(p) => p.get_timeout(),
            Pattern::DoubleTap(p) => p.get_timeout(),
        }
    }

    /// The action that the pattern stands for.
    pub fn action(&self) -> (a: ShortcutAction)
        ensures
            a == pattern_action(self@),
    {
        match self {
            Pattern::Single(p) => p.action(),
            Pattern::Combo(p) => p.action(),
            Pattern::DoubleTap(p) => p.action(),
        }
    }

    pub fn could_match_key(&self, key: Key) -> (b: bool)
        ensures
            b == could_match(self@, key),
    {
        match self {
            Pattern::Single(p) => p.could_match_key(key),
            Pattern::Combo(p) => p.could_match_key(key),
            Pattern::DoubleTap(p) => p.could_match_key(key),
        }
    }

    /// The keys whose press should wake a listener: the trigger key.
    pub fn get_activation_keys(&self) -> (keys: Vec<Key>)
        requires
            self.wf(),
        ensures
            keys@ == seq![trigger_key(self@)],
    {
        match self {
            Pattern::Single(p) => p.get_activation_keys(),
            Pattern::Combo(p) => p.get_activation_keys(),
            Pattern::DoubleTap(p) => p.get_activation_keys(),
        }
    }

    pub fn has_partial_match(&self) -> (b: bool)
        ensures
            b == partial_match(self@),
    {
        match self {
            Pattern::Single(p) => p.has_partial_match(),
            Pattern::Combo(p) => p.has_partial_match(),
            Pattern::DoubleTap(p) => p.has_partial_match(),
        }
    }
}

} // verus!
