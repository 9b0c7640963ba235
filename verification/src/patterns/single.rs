//! The single-key pattern.

use crate::key::Key;
use crate::types::{
    elapsed_millis, millis_since, ConflictStrategy, MatchOutcome, MatchResult, PatternType,
    ShortcutAction,
};
use vstd::prelude::*;

verus! {

/// A release fires a `FireOnRelease` pattern only if the key was held for less
/// than this many milliseconds.
pub const HOLD_LIMIT_MS: u64 = 100;

/// A pattern that one key completes.
#[derive(Debug)]
pub struct SingleKeyPattern {
    key: Key,
    action: ShortcutAction,
    conflict_strategy: ConflictStrategy,
    press_time: Option<u64>,
}

/// The mathematical content of a [`SingleKeyPattern`].
pub struct SingleModel {
    pub key: Key,
    pub action: ShortcutAction,
    pub conflict_strategy: ConflictStrategy,
    /// When the key went down, if it is down.
    pub press_time: Option<u64>,
}

impl View for SingleKeyPattern {
    type V = SingleModel;

    closed spec fn view(&self) -> SingleModel {
        SingleModel {
            key: self.key,
            action: self.action,
            conflict_strategy: self.conflict_strategy,
            press_time: self.press_time,
        }
    }
}

/// A partial match that expects no particular key.
pub open spec fn waiting() -> MatchOutcome {
    MatchOutcome::Partial { next_expected: Seq::empty() }
}

/// The pattern and its answer after a press of `key` at `now`.
pub open spec fn single_press(m: SingleModel, key: Key, now: u64) -> (SingleModel, MatchOutcome) {
    if key == m.key {
        (
            SingleModel { press_time: Some(now), ..m },
            match m.conflict_strategy {
                ConflictStrategy::Immediate => MatchOutcome::Complete { action: m.action },
                ConflictStrategy::FireOnRelease => waiting(),
                ConflictStrategy::DelayedFire { delay_ms } => MatchOutcome::Delayed {
                    action: m.action,
                    wait_ms: delay_ms,
                },
            },
        )
    } else if m.press_time is Some && m.conflict_strategy == ConflictStrategy::FireOnRelease {
        (m, waiting())
    } else {
        (m, MatchOutcome::NoMatch)
    }
}

/// The pattern and its answer after a release of `key` at `now`.
pub open spec fn single_release(m: SingleModel, key: Key, now: u64) -> (
    SingleModel,
    MatchOutcome,
) {
    if key != m.key {
        (m, MatchOutcome::NoMatch)
    } else {
        (
            SingleModel { press_time: None, ..m },
            if m.conflict_strategy == ConflictStrategy::FireOnRelease && m.press_time is Some
                && millis_since(now, m.press_time->0) < HOLD_LIMIT_MS {
                MatchOutcome::Complete { action: m.action }
            } else {
                MatchOutcome::NoMatch
            },
        )
    }
}

/// The pattern with no press in progress.
pub open spec fn single_reset(m: SingleModel) -> SingleModel {
    SingleModel { press_time: None, ..m }
}

impl SingleKeyPattern {
    /// A pattern for `key` that fires on the press.
    pub fn new(key: Key, action: ShortcutAction) -> (p: Self)
        ensures
            p@ == (SingleModel {
                key,
                action,
                conflict_strategy: ConflictStrategy::Immediate,
                press_time: None,
            }),
    {
        SingleKeyPattern {
            key,
            action,
            conflict_strategy: ConflictStrategy::Immediate,
            press_time: None,
        }
    }

    /// Replaces the firing strategy.
    pub fn set_conflict_strategy(&mut self, strategy: ConflictStrategy)
        ensures
            final(self)@ == (SingleModel { conflict_strategy: strategy, ..old(self)@ }),
    {
        self.conflict_strategy = strategy;
    }

    /// The firing strategy.
    pub fn conflict_strategy(&self) -> (s: ConflictStrategy)
        ensures
            s == self@.conflict_strategy,
    {
        self.conflict_strategy
    }

    /// The action that the pattern stands for.
    pub fn action(&self) -> (a: ShortcutAction)
        ensures
            a == self@.action,
    {
        self.action
    }

    pub fn process_key_press(&mut self, key: Key, now: u64) -> (r: MatchResult)
        ensures
            final(self)@ == single_press(old(self)@, key, now).0,
            r@ == single_press(old(self)@, key, now).1,
    {
        if key == self.key {
            self.press_time = Some(now);
            match self.conflict_strategy {
                ConflictStrategy::Immediate => MatchResult::Complete { action: self.action },
                ConflictStrategy::FireOnRelease => MatchResult::Partial {
                    next_expected: Vec::new(),
                },
                ConflictStrategy::DelayedFire { delay_ms } => MatchResult::Delayed {
                    action: self.action,
                    wait_ms: delay_ms,
                },
            }
        } else if self.press_time.is_some() && self.conflict_strategy
            == ConflictStrategy::FireOnRelease {
            MatchResult::Partial { next_expected: Vec::new() }
        } else {
            MatchResult::NoMatch
        }
    }

    pub fn process_key_release(&mut self, key: Key, now: u64) -> (r: MatchResult)
        ensures
            final(self)@ == single_release(old(self)@, key, now).0,
            r@ == single_release(old(self)@, key, now).1,
    {
        if key != self.key {
            return MatchResult::NoMatch;
        }
        let result = match self.conflict_strategy {
            ConflictStrategy::FireOnRelease => match self.press_time {
                Some(press_time) => {
                    if elapsed_millis(now, press_time) < HOLD_LIMIT_MS {
                        MatchResult::Complete { action: self.action }
                    } else {
                        MatchResult::NoMatch
                    }
                },
                None => MatchResult::NoMatch,
            },
            _ => MatchResult::NoMatch,
        };
        self.reset();
        result
    }

    pub fn reset(&mut self)
        ensures
            final(self)@ == single_reset(old(self)@),
    {
        self.press_time = None;
    }

    /// A single-key pattern never expires.
    pub fn is_expired(&self, _now: u64) -> (b: bool)
        ensures
            !b,
    {
        false
    }

    pub fn get_trigger_key(&self) -> (k: Key)
        ensures
            k == self@.key,
    {
        self.key
    }

    pub fn get_type(&self) -> (t: PatternType)
        ensures
            t == PatternType::Single,
    {
        PatternType::Single
    }

    pub fn get_timeout(&self) -> (t: Option<u64>)
        ensures
            t is None,
    {
        None
    }

    pub fn could_match_key(&self, key: Key) -> (b: bool)
        ensures
            b == (key == self@.key),
    {
        self.key == key
    }

    pub fn get_activation_keys(&self) -> (keys: Vec<Key>)
        ensures
            keys@ == seq![self@.key],
    {
        let mut keys: Vec<Key> = Vec::new();
        keys.push(self.key);
        assert(keys@ =~= seq![self@.key]);
        keys
    }

    pub fn has_partial_match(&self) -> (b: bool)
        ensures
            b == (self@.press_time is Some),
    {
        self.press_time.is_some()
    }
}

} // verus!
