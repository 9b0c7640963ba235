//! The double-tap pattern.

use crate::key::Key;
use crate::types::{
    elapsed_millis, millis_since, MatchOutcome, MatchResult, PatternType, ShortcutAction,
};
use vstd::prelude::*;

verus! {

/// A pattern that two presses of one key within a time limit complete.
#[derive(Debug)]
pub struct DoubleTapPattern {
    target_key: Key,
    timeout_ms: u64,
    action: ShortcutAction,
    first_press: Option<u64>,
}

/// The mathematical content of a [`DoubleTapPattern`].
pub struct DoubleTapModel {
    pub target_key: Key,
    pub timeout_ms: u64,
    pub action: ShortcutAction,
    /// When the first tap came, if one is waiting for its second.
    pub first_press: Option<u64>,
}

impl View for DoubleTapPattern {
    type V = DoubleTapModel;

    closed spec fn view(&self) -> DoubleTapModel {
        DoubleTapModel {
            target_key: self.target_key,
            timeout_ms: self.timeout_ms,
            action: self.action,
            first_press: self.first_press,
        }
    }
}

/// The pattern and its answer after a press of `key` at `now`.
pub open spec fn double_press(m: DoubleTapModel, key: Key, now: u64) -> (
    DoubleTapModel,
    MatchOutcome,
) {
    if key != m.target_key {
        (m, MatchOutcome::NoMatch)
    } else if m.first_press is Some && millis_since(now, m.first_press->0) <= m.timeout_ms {
        (DoubleTapModel { first_press: None, ..m }, MatchOutcome::Complete { action: m.action })
    } else {
        (
            DoubleTapModel { first_press: Some(now), ..m },
            MatchOutcome::Partial { next_expected: seq![m.target_key] },
        )
    }
}

/// The pattern with no tap waiting.
pub open spec fn double_reset(m: DoubleTapModel) -> DoubleTapModel {
    DoubleTapModel { first_press: None, ..m }
}

/// Whether a first tap is waiting and its time limit has passed.
pub open spec fn double_expired(m: DoubleTapModel, now: u64) -> bool {
    m.first_press is Some && millis_since(now, m.first_press->0) > m.timeout_ms
}

impl DoubleTapPattern {
    /// A pattern for two taps of `target_key` within `timeout_ms`.
    pub fn new(target_key: Key, timeout_ms: u64, action: ShortcutAction) -> (p: Self)
        ensures
            p@ == (DoubleTapModel { target_key, timeout_ms, action, first_press: None }),
    {
        DoubleTapPattern { target_key, timeout_ms, action, first_press: None }
    }

    /// The action that the pattern stands for.
    pub fn action(&self) -> (a: ShortcutAction)
        ensures
            a == self@.action,
    {
        self.action
    }

    pub fn process_key_press(&mut self, key: Key, now: u64) -> (r: MatchResult)
        ensures
            final(self)@ == double_press(old(self)@, key, now).0,
            r@ == double_press(old(self)@, key, now).1,
    {
        if key != self.target_key {
            return MatchResult::NoMatch;
        }
        let within = match self.first_press {
            None => false,
            Some(first) => elapsed_millis(now, first) <= self.timeout_ms,
        };
        if within {
            self.reset();
            MatchResult::Complete { action: self.action }
        } else {
            self.first_press = Some(now);
            let mut next: Vec<Key> = Vec::new();
            next.push(self.target_key);
            assert(next@ =~= seq![self.target_key]);
            MatchResult::Partial { next_expected: next }
        }
    }

    /// A release means nothing to a double tap.
    pub fn process_key_release(&mut self, _key: Key, _now: u64) -> (r: MatchResult)
        ensures
            final(self)@ == old(self)@,
            r@ == MatchOutcome::NoMatch,
    {
        MatchResult::NoMatch
    }

    pub fn reset(&mut self)
        ensures
            final(self)@ == double_reset(old(self)@),
    {
        self.first_press = None;
    }

    pub fn is_expired(&self, now: u64) -> (b: bool)
        ensures
            b == double_expired(self@, now),
    {
        match self.first_press {
            Some(t) => elapsed_millis(now, t) > self.timeout_ms,
            None => false,
        }
    }

    pub fn get_trigger_key(&self) -> (k: Key)
        ensures
            k == self@.target_key,
    {
        self.target_key
    }

    pub fn get_type(&self) -> (t: PatternType)
        ensures
            t == PatternType::DoubleTap,
    {
        PatternType::DoubleTap
    }

    pub fn get_timeout(&self) -> (t: Option<u64>)
        ensures
            t == Some(self@.timeout_ms),
    {
        Some(self.timeout_ms)
    }

    pub fn could_match_key(&self, key: Key) -> (b: bool)
        ensures
            b == (key == self@.target_key),
    {
        self.target_key == key
    }

    pub fn get_activation_keys(&self) -> (keys: Vec<Key>)
        ensures
            keys@ == seq![self@.target_key],
    {
        let mut keys: Vec<Key> = Vec::new();
        keys.push(self.target_key);
        assert(keys@ =~= seq![self@.target_key]);
        keys
    }

    pub fn has_partial_match(&self) -> (b: bool)
        ensures
            b == (self@.first_press is Some),
    {
        self.first_press.is_some()
    }
}

} // verus!
