//! The replacement table: which spoken fillers are deleted from a
//! transcription and which words are replaced by what.

use crate::text::{split, split_on, text_views, to_chars, trim, trimmed, copy_range, string_from_chars};
use vstd::prelude::*;
use vstd::string::*;

verus! {

/// One entry of the table: a text and what replaces it, `None` for deletion.
pub type Replacement = (String, Option<String>);

/// The content of an entry.
pub type ReplacementModel = (Seq<char>, Option<Seq<char>>);

/// The content of what replaces a text.
pub open spec fn target_view(target: Option<String>) -> Option<Seq<char>> {
    match target {
        Some(t) => Some(t@),
        None => None,
    }
}

/// The contents of a list of entries.
pub open spec fn entry_views(entries: Seq<Replacement>) -> Seq<ReplacementModel> {
    Seq::new(entries.len(), |i: int| (entries[i].0@, target_view(entries[i].1)))
}

/// The position of the entry for `key`, if there is one.
pub open spec fn position_of(entries: Seq<ReplacementModel>, key: Seq<char>) -> Option<int>
    decreases entries.len(),
{
    if entries.len() == 0 {
        None
    } else {
        match position_of(entries.drop_last(), key) {
            Some(i) => Some(i),
            None => if entries.last().0 == key {
                Some(entries.len() - 1)
            } else {
                None
            },
        }
    }
}

/// What the table says of `key`: nothing, or what replaces it.
pub open spec fn lookup(entries: Seq<ReplacementModel>, key: Seq<char>) -> Option<
    Option<Seq<char>>,
> {
    match position_of(entries, key) {
        Some(i) => Some(entries[i].1),
        None => None,
    }
}

/// The table with `key` set to `target`: in place where the key is there,
/// at the end where it is new.
pub open spec fn with_entry(
    entries: Seq<ReplacementModel>,
    key: Seq<char>,
    target: Option<Seq<char>>,
) -> Seq<ReplacementModel> {
    match position_of(entries, key) {
        Some(i) => entries.update(i, (key, target)),
        None => entries.push((key, target)),
    }
}

/// A table of replacements, each text once, in the order in which the texts
/// were first set.
#[derive(Debug)]
pub struct ReplacementTable {
    entries: Vec<Replacement>,
}

impl View for ReplacementTable {
    type V = Seq<ReplacementModel>;

    closed spec fn view(&self) -> Seq<ReplacementModel> {
        entry_views(self.entries@)
    }
}

impl ReplacementTable {
    /// An empty table.
    pub fn new() -> (t: Self)
        ensures
            t@ == Seq::<ReplacementModel>::empty(),
    {
        let t = ReplacementTable { entries: Vec::new() };
        assert(t@ =~= Seq::<ReplacementModel>::empty());
        t
    }

    /// The number of texts in the table.
    pub fn len(&self) -> (n: usize)
        ensures
            n == self@.len(),
    {
        self.entries.len()
    }

    /// Whether the table is empty.
    pub fn is_empty(&self) -> (b: bool)
        ensures
            b == (self@.len() == 0),
    {
        self.entries.len() == 0
    }

    fn find(&self, key: &String) -> (p: Option<usize>)
        ensures
            match p {
                Some(i) => position_of(self@, key@) == Some(i as int) && i < self@.len(),
                None => position_of(self@, key@) is None,
            },
    {
        let mut i: usize = 0;
        assert(self@.take(0) =~= Seq::<ReplacementModel>::empty());
        while i < self.entries.len()
            invariant
                i <= self.entries@.len(),
                position_of(self@.take(i as int), key@) is None,
            decreases self.entries@.len() - i,
        {
            proof {
                assert(self@.take(i + 1).drop_last() =~= self@.take(i as int));
                assert(self@.take(i + 1).last() == self@[i as int]);
            }
            if self.entries[i].0 == *key {
                proof {
                    lemma_position_prefix(self@, key@, (i + 1) as int);
                }
                return Some(i);
            }
            i += 1;
        }
        assert(self@.take(i as int) =~= self@);
        None
    }

    /// Sets `key` to `target`, `None` for deletion.
    pub fn insert(&mut self, key: String, target: Option<String>)
        ensures
            final(self)@ == with_entry(old(self)@, key@, target_view(target)),
    {
        match self.find(&key) {
            Some(i) => {
                let ghost k = key@;
                let ghost t = target_view(target);
                self.entries.set(i, (key, target));
                assert(self@ =~= old(self)@.update(i as int, (k, t)));
            },
            None => {
                let ghost k = key@;
                let ghost t = target_view(target);
                self.entries.push((key, target));
                assert(self@ =~= old(self)@.push((k, t)));
            },
        }
    }

    /// What the table says of `key`.
    pub fn get(&self, key: &str) -> (r: Option<&Option<String>>)
        ensures
            match r {
                Some(target) => lookup(self@, key@) == Some(target_view(*target)),
                None => lookup(self@, key@) is None,
            },
    {
        let wanted = String::from_str(key);
        match self.find(&wanted) {
            Some(i) => {
                assert(self@[i as int] == (self.entries@[i as int].0@, target_view(
                    self.entries@[i as int].1,
                )));
                Some(&self.entries[i].1)
            },
            None => None,
        }
    }

    /// The entries in order.
    pub fn entries(&self) -> (e: &Vec<Replacement>)
        ensures
            entry_views(e@) == self@,
    {
        &self.entries
    }
}

/// A key found in a prefix of the table is at the same position in the table.
pub proof fn lemma_position_prefix(entries: Seq<ReplacementModel>, key: Seq<char>, n: int)
    requires
        0 <= n <= entries.len(),
        position_of(entries.take(n), key) is Some,
    ensures
        position_of(entries, key) == position_of(entries.take(n), key),
    decreases entries.len() - n,
{
    if n == entries.len() {
        assert(entries.take(n) =~= entries);
    } else {
        assert(entries.drop_last().take(n) =~= entries.take(n));
        lemma_position_prefix(entries.drop_last(), key, n);
    }
}

/// The fillers that are deleted unless the configuration says otherwise.
pub open spec fn default_entries() -> Seq<ReplacementModel> {
    seq![
        ("Uh"@, None::<Seq<char>>),
        ("uh"@, None::<Seq<char>>),
        ("ah"@, None::<Seq<char>>),
        ("oh"@, None::<Seq<char>>),
        ("um"@, None::<Seq<char>>),
        ("Um"@, None::<Seq<char>>),
        ("Oh"@, None::<Seq<char>>),
        ("so."@, None::<Seq<char>>),
    ]
}

/// The position of the first `c` in `s`, if there is one.
pub open spec fn first_index(s: Seq<char>, c: char) -> Option<int>
    decreases s.len(),
{
    if s.len() == 0 {
        None
    } else {
        match first_index(s.drop_last(), c) {
            Some(i) => Some(i),
            None => if s.last() == c {
                Some(s.len() - 1)
            } else {
                None
            },
        }
    }
}

/// The table after one piece of a replacement text: a blank piece changes
/// nothing; `from:to` sets `from` to `to`, or to deletion where `to` is
/// blank; a piece without a colon is deleted.
pub open spec fn with_pair(entries: Seq<ReplacementModel>, piece: Seq<char>) -> Seq<
    ReplacementModel,
> {
    let text = trim(piece);
    if text.len() == 0 {
        entries
    } else {
        match first_index(text, ':') {
            Some(i) => {
                let to = trim(text.skip(i + 1));
                with_entry(
                    entries,
                    trim(text.take(i)),
                    if to.len() == 0 {
                        None
                    } else {
                        Some(to)
                    },
                )
            },
            None => with_entry(entries, text, None),
        }
    }
}

/// The table after the first `n` pieces.
pub open spec fn with_pairs(entries: Seq<ReplacementModel>, pieces: Seq<Seq<char>>, n: nat) -> Seq<
    ReplacementModel,
>
    decreases n,
{
    if n == 0 {
        entries
    } else {
        with_pair(with_pairs(entries, pieces, (n - 1) as nat), pieces[n - 1])
    }
}

/// The table that a replacement text stands for: the defaults, overridden
/// and extended by the pairs that the text lists, separated by `;`.
pub open spec fn replacements_of(text: Option<Seq<char>>) -> Seq<ReplacementModel> {
    match text {
        Some(t) => {
            let pieces = split(t, ';');
            if t.len() == 0 {
                default_entries()
            } else {
                with_pairs(default_entries(), pieces, pieces.len())
            }
        },
        None => default_entries(),
    }
}

/// The fillers that are deleted unless the configuration says otherwise.
pub fn default_replacements() -> (t: ReplacementTable)
    ensures
        t@ == default_entries(),
{
    let mut t = ReplacementTable::new();
    proof {
        reveal_with_fuel(position_of, 9);
        reveal_strlit("Uh");
        reveal_strlit("uh");
        reveal_strlit("ah");
        reveal_strlit("oh");
        reveal_strlit("um");
        reveal_strlit("Um");
        reveal_strlit("Oh");
        reveal_strlit("so.");
    }
    t.insert(String::from_str("Uh"), None);
    assert(t@ =~= seq![("Uh"@, None::<Seq<char>>)]);
    assert("uh"@[0] != "Uh"@[0]);
    t.insert(String::from_str("uh"), None);
    assert(t@ =~= seq![("Uh"@, None::<Seq<char>>), ("uh"@, None::<Seq<char>>)]);
    assert("ah"@[0] != "Uh"@[0]);
    assert("ah"@[0] != "uh"@[0]);
    t.insert(String::from_str("ah"), None);
    assert(t@ =~= default_entries().take(3));
    assert("oh"@[0] != "Uh"@[0] && "oh"@[0] != "uh"@[0] && "oh"@[0] != "ah"@[0]);
    t.insert(String::from_str("oh"), None);
    assert(t@ =~= default_entries().take(4));
    assert("um"@[1] != "Uh"@[1] && "um"@[1] != "uh"@[1] && "um"@[0] != "ah"@[0] && "um"@[0]
        != "oh"@[0]);
    t.insert(String::from_str("um"), None);
    assert(t@ =~= default_entries().take(5));
    assert("Um"@[1] != "Uh"@[1] && "Um"@[0] != "uh"@[0] && "Um"@[0] != "ah"@[0] && "Um"@[0]
        != "oh"@[0] && "Um"@[0] != "um"@[0]);
    t.insert(String::from_str("Um"), None);
    assert(t@ =~= default_entries().take(6));
    assert("Oh"@[0] != "Uh"@[0] && "Oh"@[0] != "uh"@[0] && "Oh"@[0] != "ah"@[0] && "Oh"@[0]
        != "oh"@[0] && "Oh"@[0] != "um"@[0] && "Oh"@[0] != "Um"@[0]);
    t.insert(String::from_str("Oh"), None);
    assert(t@ =~= default_entries().take(7));
    assert("so."@.len() == 3);
    assert("Uh"@.len() == 2 && "uh"@.len() == 2 && "ah"@.len() == 2 && "oh"@.len() == 2
        && "um"@.len() == 2 && "Um"@.len() == 2 && "Oh"@.len() == 2);
    t.insert(String::from_str("so."), None);
    assert(t@ =~= default_entries());
    t
}

fn index_of_char(s: &[char], c: char) -> (r: Option<usize>)
    ensures
        match r {
            Some(i) => first_index(s@, c) == Some(i as int) && i < s@.len(),
            None => first_index(s@, c) is None,
        },
{
    let mut i: usize = 0;
    assert(s@.take(0) =~= Seq::<char>::empty());
    while i < s.len()
        invariant
            i <= s@.len(),
            first_index(s@.take(i as int), c) is None,
        decreases s@.len() - i,
    {
        proof {
            assert(s@.take(i + 1).drop_last() =~= s@.take(i as int));
            assert(s@.take(i + 1).last() == s@[i as int]);
        }
        if s[i] == c {
            proof {
                lemma_first_index_prefix(s@, c, (i + 1) as int);
            }
            return Some(i);
        }
        i += 1;
    }
    assert(s@.take(i as int) =~= s@);
    None
}

/// A character found in a prefix is the first in the whole.
pub proof fn lemma_first_index_prefix(s: Seq<char>, c: char, n: int)
    requires
        0 <= n <= s.len(),
        first_index(s.take(n), c) is Some,
    ensures
        first_index(s, c) == first_index(s.take(n), c),
    decreases s.len() - n,
{
    if n == s.len() {
        assert(s.take(n) =~= s);
    } else {
        assert(s.drop_last().take(n) =~= s.take(n));
        lemma_first_index_prefix(s.drop_last(), c, n);
    }
}

/// Reads a replacement text such as `ui:UI;uh:;um` into a table on top of the
/// defaults.
pub fn parse_replace_pairs(replace_str: &Option<String>) -> (t: ReplacementTable)
    ensures
        t@ == replacements_of(
            match *replace_str {
                Some(s) => Some(s@),
                None => None,
            },
        ),
{
    let mut replacements = default_replacements();
    if let Some(s) = replace_str {
        let chars = to_chars(s.as_str());
        if chars.len() > 0 {
            let pieces = split_on(chars.as_slice(), ';');
            let ghost piece_texts = text_views(pieces@);
            let mut n: usize = 0;
            while n < pieces.len()
                invariant
                    n <= pieces@.len(),
                    piece_texts == text_views(pieces@),
                    replacements@ == with_pairs(default_entries(), piece_texts, n as nat),
                decreases pieces@.len() - n,
            {
                let text = trimmed(pieces[n].as_slice());
                assert(text@ == trim(piece_texts[n as int]));
                if text.len() > 0 {
                    match index_of_char(text.as_slice(), ':') {
                        Some(i) => {
                            let from_raw = copy_range(text.as_slice(), 0, i);
                            let to_raw = copy_range(text.as_slice(), i + 1, text.len());
                            assert(from_raw@ =~= text@.take(i as int));
                            assert(to_raw@ =~= text@.skip(i + 1));
                            let from = trimmed(from_raw.as_slice());
                            let to = trimmed(to_raw.as_slice());
                            let target = if to.len() == 0 {
                                None
                            } else {
                                Some(string_from_chars(to.as_slice()))
                            };
                            replacements.insert(string_from_chars(from.as_slice()), target);
                        },
                        None => {
                            replacements.insert(string_from_chars(text.as_slice()), None);
                        },
                    }
                }
                n += 1;
            }
        }
    }
    replacements
}

} // verus!
