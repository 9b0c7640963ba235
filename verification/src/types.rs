//! The vocabulary shared by patterns, the matcher and the engine.

use crate::key::Key;
use vstd::prelude::*;

verus! {

/// A high-level intent produced by the matcher.
#[derive(Clone, Copy, Debug, PartialEq, Eq, Structural)]
pub enum ShortcutAction {
    Start,
    Stop,
    Cancel,
    Pause,
}

/// The state of the matcher engine.
#[derive(Clone, Copy, Debug, PartialEq, Eq, Structural)]
pub enum ShortcutEngineState {
    Idle,
    Active,
    Paused,
}

/// Whether a key went down or came up.
#[derive(Clone, Copy, Debug, PartialEq, Eq, Structural)]
pub enum KeyState {
    Pressed,
    Released,
}

/// One raw keyboard event.
#[derive(Clone, Copy, Debug, PartialEq, Eq, Structural)]
pub enum KeyEvent {
    Press(Key),
    Release(Key),
}

impl KeyEvent {
    /// The key that the event is about.
    pub fn key(&self) -> (k: Key)
        ensures
            k == match *self {
                KeyEvent::Press(key) => key,
                KeyEvent::Release(key) => key,
            },
    {
        match self {
            KeyEvent::Press(k) => *k,
            KeyEvent::Release(k) => *k,
        }
    }

    /// Whether the event is a press or a release.
    pub fn state(&self) -> (s: KeyState)
        ensures
            s == match *self {
                KeyEvent::Press(_) => KeyState::Pressed,
                KeyEvent::Release(_) => KeyState::Released,
            },
    {
        match self {
            KeyEvent::Press(_) => KeyState::Pressed,
            KeyEvent::Release(_) => KeyState::Released,
        }
    }
}

/// The three kinds of pattern.
#[derive(Clone, Copy, Debug, PartialEq, Eq, Structural)]
pub enum PatternType {
    Single,
    Combo,
    DoubleTap,
}

/// When a single-key pattern fires, given what else shares its trigger key.
#[derive(Clone, Copy, Debug, PartialEq, Eq, Structural)]
pub enum ConflictStrategy {
    /// Fire on the press.
    Immediate,
    /// Fire on a release that follows the press within the hold limit.
    FireOnRelease,
    /// Fire `delay_ms` after the press unless something cancels it first.
    DelayedFire { delay_ms: u64 },
}

/// The identity of a scheduled action; cancellation goes by it.
#[derive(Clone, Copy, Debug, PartialEq, Eq, Hash, Structural)]
pub struct DelayedActionId(pub u64);

/// An action scheduled to fire once the clock reaches `trigger_at`.
#[derive(Clone, Copy, Debug, PartialEq, Eq, Structural)]
pub struct DelayedAction {
    pub id: DelayedActionId,
    pub action: ShortcutAction,
    /// Milliseconds on the caller's monotonic clock.
    pub trigger_at: u64,
}

/// Milliseconds from `earlier` to `now`, zero where the clock reads earlier.
pub open spec fn millis_since(now: u64, earlier: u64) -> u64 {
    if now >= earlier {
        (now - earlier) as u64
    } else {
        0
    }
}

/// Milliseconds from `earlier` to `now`, zero where the clock reads earlier.
pub fn elapsed_millis(now: u64, earlier: u64) -> (d: u64)
    ensures
        d == millis_since(now, earlier),
{
    if now >= earlier {
        now - earlier
    } else {
        0
    }
}

/// `a + b`, held to what a `u64` can express.
pub open spec fn saturating_sum(a: u64, b: u64) -> u64 {
    if a + b <= u64::MAX {
        (a + b) as u64
    } else {
        u64::MAX
    }
}

/// `a + b`, held to what a `u64` can express.
pub fn add_saturating(a: u64, b: u64) -> (s: u64)
    ensures
        s == saturating_sum(a, b),
{
    match a.checked_add(b) {
        Some(s) => s,
        None => u64::MAX,
    }
}

/// What a pattern answers to one key event.
#[derive(Debug, PartialEq, Eq)]
pub enum MatchResult {
    NoMatch,
    Partial { next_expected: Vec<Key> },
    Complete { action: ShortcutAction },
    Delayed { action: ShortcutAction, wait_ms: u64 },
}

impl Clone for MatchResult {
    fn clone(&self) -> (r: Self)
        ensures
            r@ == self@,
    {
        match self {
            MatchResult::NoMatch => MatchResult::NoMatch,
            MatchResult::Partial { next_expected } => {
                let mut keys: Vec<Key> = Vec::new();
                let mut i: usize = 0;
                while i < next_expected.len()
                    invariant
                        i <= next_expected@.len(),
                        keys@ == next_expected@.take(i as int),
                    decreases next_expected@.len() - i,
                {
                    keys.push(next_expected[i]);
                    assert(next_expected@.take(i + 1) =~= next_expected@.take(i as int).push(
                        next_expected@[i as int],
                    ));
                    i += 1;
                }
                assert(next_expected@.take(i as int) =~= next_expected@);
                MatchResult::Partial { next_expected: keys }
            },
            MatchResult::Complete { action } => MatchResult::Complete { action: *action },
            MatchResult::Delayed { action, wait_ms } => MatchResult::Delayed {
                action: *action,
                wait_ms: *wait_ms,
            },
        }
    }
}

/// The mathematical content of a [`MatchResult`].
pub enum MatchOutcome {
    NoMatch,
    Partial { next_expected: Seq<Key> },
    Complete { action: ShortcutAction },
    Delayed { action: ShortcutAction, wait_ms: u64 },
}

impl View for MatchResult {
    type V = MatchOutcome;

    open spec fn view(&self) -> MatchOutcome {
        match *self {
            MatchResult::NoMatch => MatchOutcome::NoMatch,
            MatchResult::Partial { next_expected } => MatchOutcome::Partial {
                next_expected: next_expected@,
            },
            MatchResult::Complete { action } => MatchOutcome::Complete { action },
            MatchResult::Delayed { action, wait_ms } => MatchOutcome::Delayed { action, wait_ms },
        }
    }
}

} // verus!
