//! The combo pattern: keys pressed in a fixed order and held.

use crate::key::Key;
use crate::key_set::KeySet;
use crate::types::{MatchOutcome, MatchResult, PatternType, ShortcutAction};
use vstd::prelude::*;

verus! {

/// A pattern that a run of keys completes, each pressed while the earlier ones
/// are still down.
#[derive(Debug)]
pub struct ComboPattern {
    sequence: Vec<Key>,
    current_index: usize,
    held_keys: KeySet,
    action: ShortcutAction,
}

/// The mathematical content of a [`ComboPattern`].
pub struct ComboModel {
    pub sequence: Seq<Key>,
    /// How many keys of the sequence have been pressed in order.
    pub current_index: nat,
    /// The keys of the sequence that are down.
    pub held: Set<Key>,
    pub action: ShortcutAction,
}

impl View for ComboPattern {
    type V = ComboModel;

    closed spec fn view(&self) -> ComboModel {
        ComboModel {
            sequence: self.sequence@,
            current_index: self.current_index as nat,
            held: self.held_keys@,
            action: self.action,
        }
    }
}

/// Whether `key` stands in the sequence at a position below `index`.
pub open spec fn occurs_before(sequence: Seq<Key>, key: Key, index: nat) -> bool {
    exists|p: int| 0 <= p < index && p < sequence.len() && sequence[p] == key
}

/// The pattern with nothing pressed.
pub open spec fn combo_reset(m: ComboModel) -> ComboModel {
    ComboModel { current_index: 0, held: Set::empty(), ..m }
}

/// The answer that asks for the key at the current index.
pub open spec fn expecting(m: ComboModel) -> MatchOutcome {
    if m.current_index < m.sequence.len() {
        MatchOutcome::Partial { next_expected: seq![m.sequence[m.current_index as int]] }
    } else {
        MatchOutcome::NoMatch
    }
}

/// The pattern and its answer after a press of `key`.
pub open spec fn combo_press(m: ComboModel, key: Key) -> (ComboModel, MatchOutcome) {
    if m.current_index < m.sequence.len() && key == m.sequence[m.current_index as int] {
        let advanced = ComboModel {
            current_index: m.current_index + 1,
            held: m.held.insert(key),
            ..m
        };
        (
            advanced,
            if advanced.current_index == m.sequence.len() {
                MatchOutcome::Complete { action: m.action }
            } else {
                expecting(advanced)
            },
        )
    } else if m.held.contains(key) {
        (m, expecting(m))
    } else {
        (combo_reset(m), MatchOutcome::NoMatch)
    }
}

/// The pattern after a release of `key`: letting go of a held key that the
/// pattern has already passed breaks the combo.
pub open spec fn combo_release(m: ComboModel, key: Key) -> ComboModel {
    if m.held.contains(key) {
        if occurs_before(m.sequence, key, m.current_index) {
            combo_reset(m)
        } else {
            ComboModel { held: m.held.remove(key), ..m }
        }
    } else {
        m
    }
}

impl ComboPattern {
    /// The invariant: the sequence is not empty and the index lies within it.
    pub closed spec fn wf(&self) -> bool {
        &&& self.sequence@.len() > 0
        &&& self.current_index <= self.sequence@.len()
        &&& self.held_keys.wf()
    }

    /// What the invariant says of the view.
    pub proof fn lemma_wf(&self)
        requires
            self.wf(),
        ensures
            self@.sequence.len() > 0,
            self@.current_index <= self@.sequence.len(),
    {
    }

    /// A pattern for the keys of `sequence`, to be pressed in that order.
    pub fn new(sequence: Vec<Key>, action: ShortcutAction) -> (p: Self)
        requires
            sequence@.len() > 0,
        ensures
            p.wf(),
            p@ == (ComboModel {
                sequence: sequence@,
                current_index: 0,
                held: Set::empty(),
                action,
            }),
    {
        ComboPattern { sequence, current_index: 0, held_keys: KeySet::new(), action }
    }

    /// The action that the pattern stands for.
    pub fn action(&self) -> (a: ShortcutAction)
        ensures
            a == self@.action,
    {
        self.action
    }

    fn expected(&self) -> (r: MatchResult)
        requires
            self.wf(),
        ensures
            r@ == expecting(self@),
    {
        if self.current_index < self.sequence.len() {
            let mut next: Vec<Key> = Vec::new();
            next.push(self.sequence[self.current_index]);
            assert(next@ =~= seq![self.sequence@[self.current_index as int]]);
            MatchResult::Partial { next_expected: next }
        } else {
            MatchResult::NoMatch
        }
    }

    pub fn process_key_press(&mut self, key: Key, _now: u64) -> (r: MatchResult)
        requires
            old(self).wf(),
        ensures
            final(self).wf(),
            final(self)@ == combo_press(old(self)@, key).0,
            r@ == combo_press(old(self)@, key).1,
    {
        if self.current_index < self.sequence.len() && key == self.sequence[self.current_index] {
            self.held_keys.insert(key);
            self.current_index += 1;
            if self.current_index == self.sequence.len() {
                MatchResult::Complete { action: self.action }
            } else {
                self.expected()
            }
        } else if self.held_keys.contains(key) {
            self.expected()
        } else {
            self.reset();
            MatchResult::NoMatch
        }
    }

    pub fn process_key_release(&mut self, key: Key, _now: u64) -> (r: MatchResult)
        requires
            old(self).wf(),
        ensures
            final(self).wf(),
            final(self)@ == combo_release(old(self)@, key),
            r@ == MatchOutcome::NoMatch,
    {
        if self.held_keys.remove(key) {
            if self.passed(key) {
                self.reset();
            }
        } else {
            assert(self.held_keys@ =~= old(self).held_keys@);
        }
        MatchResult::NoMatch
    }

    fn passed(&self, key: Key) -> (b: bool)
        requires
            self.wf(),
        ensures
            b == occurs_before(self@.sequence, key, self@.current_index),
    {
        let mut p: usize = 0;
        while p < self.current_index
            invariant
                p <= self.current_index <= self.sequence@.len(),
                forall|q: int| 0 <= q < p ==> self.sequence@[q] != key,
            decreases self.current_index - p,
        {
            if self.sequence[p] == key {
                return true;
            }
            p += 1;
        }
        false
    }

    pub fn reset(&mut self)
        requires
            old(self).wf(),
        ensures
            final(self).wf(),
            final(self)@ == combo_reset(old(self)@),
    {
        self.current_index = 0;
        self.held_keys.clear();
    }

    /// A combo never expires.
    pub fn is_expired(&self, _now: u64) -> (b: bool)
        ensures
            !b,
    {
        false
    }

    pub fn get_trigger_key(&self) -> (k: Key)
        requires
            self.wf(),
        ensures
            k == self@.sequence[0],
    {
        self.sequence[0]
    }

    pub fn get_type(&self) -> (t: PatternType)
        ensures
            t == PatternType::Combo,
    {
        PatternType::Combo
    }

    pub fn get_timeout(&self) -> (t: Option<u64>)
        ensures
            t is None,
    {
        None
    }

    pub fn could_match_key(&self, key: Key) -> (b: bool)
        ensures
            b == self@.sequence.contains(key),
    {
        let mut p: usize = 0;
        while p < self.sequence.len()
            invariant
                p <= self.sequence@.len(),
                forall|q: int| 0 <= q < p ==> self.sequence@[q] != key,
            decreases self.sequence@.len() - p,
        {
            if self.sequence[p] == key {
                return true;
            }
            p += 1;
        }
        false
    }

    pub fn get_activation_keys(&self) -> (keys: Vec<Key>)
        requires
            self.wf(),
        ensures
            keys@ == seq![self@.sequence[0]],
    {
        let mut keys: Vec<Key> = Vec::new();
        keys.push(self.sequence[0]);
        assert(keys@ =~= seq![self@.sequence[0]]);
        keys
    }

    pub fn has_partial_match(&self) -> (b: bool)
        ensures
            b == (self@.current_index > 0),
    {
        self.current_index > 0
    }
}

} // verus!
