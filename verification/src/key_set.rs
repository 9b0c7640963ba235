//! A small set of keys, kept in insertion order.

use crate::key::Key;
use vstd::prelude::*;

verus! {

/// A finite set of keys. Its view is the set; no key is stored twice.
#[derive(Debug)]
pub struct KeySet {
    keys: Vec<Key>,
}

impl View for KeySet {
    type V = Set<Key>;

    closed spec fn view(&self) -> Set<Key> {
        Set::new(|k: Key| self.keys@.contains(k))
    }
}

impl KeySet {
    /// The invariant: no key is stored twice.
    pub closed spec fn wf(&self) -> bool {
        self.keys@.no_duplicates()
    }

    /// The keys in insertion order.
    pub closed spec fn elements(&self) -> Seq<Key> {
        self.keys@
    }

    /// The stored keys are exactly the members, each once.
    pub proof fn lemma_elements(&self)
        requires
            self.wf(),
        ensures
            self.elements().no_duplicates(),
            forall|k: Key| self@.contains(k) <==> self.elements().contains(k),
    {
    }

    /// The empty set.
    pub fn new() -> (s: Self)
        ensures
            s.wf(),
            s@ == Set::<Key>::empty(),
            s.elements() == Seq::<Key>::empty(),
    {
        let s = KeySet { keys: Vec::new() };
        assert(s@ =~= Set::<Key>::empty());
        s
    }

    fn position(&self, key: Key) -> (p: Option<usize>)
        ensures
            match p {
                Some(i) => i < self.keys@.len() && self.keys@[i as int] == key,
                None => !self.keys@.contains(key),
            },
    {
        let mut i: usize = 0;
        while i < self.keys.len()
            invariant
                i <= self.keys@.len(),
                forall|j: int| 0 <= j < i ==> self.keys@[j] != key,
            decreases self.keys@.len() - i,
        {
            if self.keys[i] == key {
                return Some(i);
            }
            i += 1;
        }
        None
    }

    /// Whether `key` is a member.
    pub fn contains(&self, key: Key) -> (b: bool)
        ensures
            b == self@.contains(key),
    {
        self.position(key).is_some()
    }

    /// Adds `key`; answers whether it was new.
    pub fn insert(&mut self, key: Key) -> (added: bool)
        requires
            old(self).wf(),
        ensures
            final(self).wf(),
            final(self)@ == old(self)@.insert(key),
            added == !old(self)@.contains(key),
            final(self).elements() == if added {
                old(self).elements().push(key)
            } else {
                old(self).elements()
            },
    {
        match self.position(key) {
            Some(_) => {
                assert(self@ =~= old(self)@.insert(key));
                false
            },
            None => {
                self.keys.push(key);
                assert forall|k: Key| self@.contains(k) == old(self)@.insert(key).contains(k) by {
                    if old(self).keys@.contains(k) {
                        let i = old(self).keys@.index_of(k);
                        assert(self.keys@[i] == k);
                    }
                    if k == key {
                        assert(self.keys@[self.keys@.len() - 1] == k);
                    }
                }
                assert(self@ =~= old(self)@.insert(key));
                true
            },
        }
    }

    /// Takes `key` out; answers whether it was a member.
    pub fn remove(&mut self, key: Key) -> (removed: bool)
        requires
            old(self).wf(),
        ensures
            final(self).wf(),
            final(self)@ == old(self)@.remove(key),
            removed == old(self)@.contains(key),
    {
        match self.position(key) {
            Some(i) => {
                self.keys.remove(i);
                assert(self.keys@ == old(self).keys@.remove(i as int));
                assert forall|k: Key| self@.contains(k) == old(self)@.remove(key).contains(k) by {
                    if self.keys@.contains(k) {
                        let j = self.keys@.index_of(k);
                        if j < i {
                            assert(old(self).keys@[j] == k);
                        } else {
                            assert(old(self).keys@[j + 1] == k);
                        }
                    }
                    if old(self).keys@.contains(k) && k != key {
                        let j = old(self).keys@.index_of(k);
                        if j < i {
                            assert(self.keys@[j] == k);
                        } else {
                            assert(self.keys@[j - 1] == k);
                        }
                    }
                }
                assert(self@ =~= old(self)@.remove(key));
                true
            },
            None => {
                assert(self@ =~= old(self)@.remove(key));
                false
            },
        }
    }

    /// Empties the set.
    pub fn clear(&mut self)
        ensures
            final(self).wf(),
            final(self)@ == Set::<Key>::empty(),
            final(self).elements() == Seq::<Key>::empty(),
    {
        self.keys.clear();
        assert(self@ =~= Set::<Key>::empty());
    }

    /// Whether the set has no member.
    pub fn is_empty(&self) -> (b: bool)
        ensures
            b == (self@ == Set::<Key>::empty()),
            b == (self.elements().len() == 0),
    {
        let b = self.keys.len() == 0;
        proof {
            if b {
                assert(self@ =~= Set::<Key>::empty());
            } else {
                assert(self.keys@.contains(self.keys@[0]));
                assert(self@.contains(self.keys@[0]));
            }
        }
        b
    }

    /// The number of members.
    pub fn len(&self) -> (n: usize)
        ensures
            n == self.elements().len(),
    {
        self.keys.len()
    }

    /// The members in insertion order.
    pub fn to_vec(&self) -> (v: Vec<Key>)
        ensures
            v@ == self.elements(),
    {
        let mut v: Vec<Key> = Vec::new();
        let mut i: usize = 0;
        while i < self.keys.len()
            invariant
                i <= self.keys@.len(),
                v@ == self.keys@.take(i as int),
            decreases self.keys@.len() - i,
        {
            v.push(self.keys[i]);
            assert(self.keys@.take(i + 1) =~= self.keys@.take(i as int).push(self.keys@[i as int]));
            i += 1;
        }
        assert(self.keys@.take(i as int) =~= self.keys@);
        v
    }
}

} // verus!
