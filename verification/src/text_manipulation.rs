//! Cleaning a transcription: fillers are deleted and configured words are
//! replaced, each only where it stands as a whole word.

use crate::config::{strings_view, Config};
use crate::replacements::{entry_views, lookup, ReplacementModel, ReplacementTable};
use crate::text::{copy_range, string_from_chars, to_chars, trim, trimmed};
use aho_corasick::{AhoCorasickBuilder, MatchKind};
use vstd::prelude::*;
use vstd::string::*;

verus! {

/// The matches that a leftmost-longest search for `patterns` finds in
/// `haystack`, one after the other without overlap, each as the byte offsets
/// of its start and its end in the UTF-8 encoding of `haystack`; `None` where
/// no searcher can be built for the patterns.
pub uninterp spec fn leftmost_longest_matches(patterns: Seq<Seq<char>>, haystack: Seq<char>)
    -> Option<Seq<(usize, usize)>>;

/// Searches `haystack` for `patterns`.
///
/// Trusted: `AhoCorasickBuilder::build` of `aho_corasick` with the match kind
/// `LeftmostLongest`, then `AhoCorasick::find_iter`. Nothing is claimed of
/// the matches but that they depend on the patterns and the haystack alone.
#[verifier::external_body]
fn find_matches(patterns: &Vec<String>, haystack: &str) -> (r: Option<Vec<(usize, usize)>>)
    ensures
        match r {
            Some(found) => leftmost_longest_matches(strings_view(patterns@), haystack@) == Some(
                found@,
            ),
            None => leftmost_longest_matches(strings_view(patterns@), haystack@) is None,
        },
{
    let searcher = AhoCorasickBuilder::new().match_kind(MatchKind::LeftmostLongest).build(
        patterns,
    ).ok()?;
    Some(searcher.find_iter(haystack).map(|m| (m.start(), m.end())).collect())
}

/// Whether `c` is a letter or a number in the sense of Unicode.
pub uninterp spec fn alphanumeric(c: char) -> bool;

/// Whether `c` is a letter or a number.
///
/// Trusted: `char::is_alphanumeric` of the standard library, which goes by
/// the Unicode properties of the character and nothing else.
#[verifier::external_body]
fn is_alphanumeric(c: char) -> (b: bool)
    ensures
        b == alphanumeric(c),
{
    c.is_alphanumeric()
}

/// The number of bytes that `c` takes in UTF-8.
pub open spec fn utf8_width(c: char) -> nat {
    let u = c as u32;
    if u < 0x80 {
        1
    } else if u < 0x800 {
        2
    } else if u < 0x10000 {
        3
    } else {
        4
    }
}

/// The byte offset of character `i` in the UTF-8 encoding of `chars`.
pub open spec fn byte_offset(chars: Seq<char>, i: nat) -> nat
    decreases i,
{
    if i == 0 {
        0
    } else {
        byte_offset(chars, (i - 1) as nat) + utf8_width(chars[i - 1])
    }
}

/// The character position among the first `n + 1` that lies at the byte
/// offset `offset`, if one does.
pub open spec fn char_at_offset(chars: Seq<char>, offset: nat, n: nat) -> Option<int>
    decreases n,
{
    if byte_offset(chars, n) == offset {
        Some(n as int)
    } else if n == 0 {
        None
    } else {
        char_at_offset(chars, offset, (n - 1) as nat)
    }
}

/// Whether a word may end or begin next to `c`: at the edge of the text or
/// next to anything but a letter, a number or an underscore.
pub open spec fn word_boundary(c: Option<char>) -> bool {
    match c {
        None => true,
        Some(c) => !alphanumeric(c) && c != '_',
    }
}

/// The character before position `i`, if there is one.
pub open spec fn char_before(chars: Seq<char>, i: int) -> Option<char> {
    if 0 < i <= chars.len() {
        Some(chars[i - 1])
    } else {
        None
    }
}

/// The character at position `i`, if there is one.
pub open spec fn char_at(chars: Seq<char>, i: int) -> Option<char> {
    if 0 <= i < chars.len() {
        Some(chars[i])
    } else {
        None
    }
}

/// Where a deletion that ends at `end` really ends: a comma or semicolon
/// that follows goes too, with one space after it; else one space that
/// follows goes too.
pub open spec fn deletion_end(chars: Seq<char>, end: int) -> int {
    match char_at(chars, end) {
        Some(c) => if c == ',' || c == ';' {
            if char_at(chars, end + 1) == Some(' ') {
                end + 2
            } else {
                end + 1
            }
        } else if c == ' ' {
            end + 1
        } else {
            end
        },
        None => end,
    }
}

/// The text rewritten so far and the position up to which the original has
/// been used.
pub struct Rewrite {
    pub out: Seq<char>,
    pub last_end: int,
}

/// The rewrite after one match. A match is applied if both its offsets lie
/// at characters, it does not begin before the position already used, it
/// stands between word boundaries and the table knows its text; the text
/// before it is kept, and the match is replaced or deleted as the table
/// says. Any other match changes nothing.
pub open spec fn apply_match(
    r: Rewrite,
    chars: Seq<char>,
    table: Seq<ReplacementModel>,
    m: (usize, usize),
) -> Rewrite {
    match (
        char_at_offset(chars, m.0 as nat, chars.len()),
        char_at_offset(chars, m.1 as nat, chars.len()),
    ) {
        (Some(start), Some(end)) => if start > end || start < r.last_end || !word_boundary(
            char_before(chars, start),
        ) || !word_boundary(char_at(chars, end)) {
            r
        } else {
            match lookup(table, chars.subrange(start, end)) {
                None => r,
                Some(Some(replacement)) => Rewrite {
                    out: r.out + chars.subrange(r.last_end, start) + replacement,
                    last_end: end,
                },
                Some(None) => Rewrite {
                    out: r.out + chars.subrange(r.last_end, start),
                    last_end: deletion_end(chars, end),
                },
            }
        },
        _ => r,
    }
}

/// The rewrite after the first `n` matches.
pub open spec fn apply_matches(
    chars: Seq<char>,
    table: Seq<ReplacementModel>,
    found: Seq<(usize, usize)>,
    n: nat,
) -> Rewrite
    decreases n,
{
    if n == 0 {
        Rewrite { out: Seq::empty(), last_end: 0 }
    } else {
        apply_match(apply_matches(chars, table, found, (n - 1) as nat), chars, table, found[n - 1])
    }
}

/// The text with every match applied and the rest of the text kept.
pub open spec fn rewritten_with(
    chars: Seq<char>,
    table: Seq<ReplacementModel>,
    found: Seq<(usize, usize)>,
) -> Seq<char> {
    let r = apply_matches(chars, table, found, found.len());
    r.out + chars.skip(r.last_end)
}

/// The texts of a table, in order.
pub open spec fn keys_of(table: Seq<ReplacementModel>) -> Seq<Seq<char>> {
    Seq::new(table.len(), |i: int| table[i].0)
}

/// The text after the replacements of the table: unchanged where the text or
/// the table is empty or no searcher can be built, else rewritten with the
/// leftmost-longest matches of the table's texts.
pub open spec fn replaced(chars: Seq<char>, table: Seq<ReplacementModel>) -> Seq<char> {
    if chars.len() == 0 || table.len() == 0 {
        chars
    } else {
        match leftmost_longest_matches(keys_of(table), chars) {
            Some(found) => rewritten_with(chars, table, found),
            None => chars,
        }
    }
}

/// What a transcription becomes: nothing where, trimmed, it has fewer than
/// three bytes; else the trimmed text after the replacements.
pub open spec fn cleaned(text: Seq<char>, table: Seq<ReplacementModel>) -> Seq<char> {
    let t = trim(text);
    if byte_offset(t, t.len()) < 3 {
        Seq::empty()
    } else {
        replaced(t, table)
    }
}

fn width(c: char) -> (w: u128)
    ensures
        w == utf8_width(c),
{
    let u = c as u32;
    if u < 0x80 {
        1
    } else if u < 0x800 {
        2
    } else if u < 0x10000 {
        3
    } else {
        4
    }
}

/// The byte offset of every character position of `chars`, the end included.
fn offsets_of(chars: &[char]) -> (offsets: Vec<u128>)
    ensures
        offsets@.len() == chars@.len() + 1,
        forall|i: int| 0 <= i <= chars@.len() ==> offsets@[i] == byte_offset(chars@, i as nat),
{
    let mut offsets: Vec<u128> = Vec::new();
    offsets.push(0);
    let mut total: u128 = 0;
    let mut i: usize = 0;
    let len = chars.len();
    while i < len
        invariant
            i <= chars@.len(),
            len == chars@.len(),
            offsets@.len() == i + 1,
            total == byte_offset(chars@, i as nat),
            total <= 4 * i,
            forall|k: int| 0 <= k <= i ==> offsets@[k] == byte_offset(chars@, k as nat),
        decreases chars@.len() - i,
    {
        total = total + width(chars[i]);
        offsets.push(total);
        i += 1;
    }
    offsets
}

fn position_at(chars: &[char], offsets: &Vec<u128>, offset: usize) -> (r: Option<usize>)
    requires
        offsets@.len() == chars@.len() + 1,
        forall|i: int| 0 <= i <= chars@.len() ==> offsets@[i] == byte_offset(chars@, i as nat),
    ensures
        match r {
            Some(i) => char_at_offset(chars@, offset as nat, chars@.len()) == Some(i as int)
                && i <= chars@.len(),
            None => char_at_offset(chars@, offset as nat, chars@.len()) is None,
        },
{
    let mut n: usize = chars.len();
    loop
        invariant
            n <= chars@.len(),
            offsets@.len() == chars@.len() + 1,
            forall|i: int| 0 <= i <= chars@.len() ==> offsets@[i] == byte_offset(chars@, i as nat),
            char_at_offset(chars@, offset as nat, chars@.len()) == char_at_offset(
                chars@,
                offset as nat,
                n as nat,
            ),
        decreases n,
    {
        if offsets[n] == offset as u128 {
            return Some(n);
        }
        if n == 0 {
            return None;
        }
        n -= 1;
    }
}

fn boundary(c: Option<char>) -> (b: bool)
    ensures
        b == word_boundary(c),
{
    match c {
        None => true,
        Some(c) => !is_alphanumeric(c) && c != '_',
    }
}

fn calculate_deletion_end(chars: &[char], end: usize) -> (r: usize)
    requires
        end <= chars@.len(),
    ensures
        r == deletion_end(chars@, end as int),
        end <= r <= chars@.len(),
{
    if end < chars.len() {
        let c = chars[end];
        if c == ',' || c == ';' {
            if end + 1 < chars.len() && chars[end + 1] == ' ' {
                end + 2
            } else {
                end + 1
            }
        } else if c == ' ' {
            end + 1
        } else {
            end
        }
    } else {
        end
    }
}

fn append_chars(out: &mut Vec<char>, chars: &[char], from: usize, to: usize)
    requires
        from <= to <= chars@.len(),
    ensures
        final(out)@ == old(out)@ + chars@.subrange(from as int, to as int),
{
    let mut i: usize = from;
    assert(chars@.subrange(from as int, from as int) =~= Seq::<char>::empty());
    assert(out@ =~= old(out)@ + chars@.subrange(from as int, from as int));
    while i < to
        invariant
            from <= i <= to <= chars@.len(),
            out@ == old(out)@ + chars@.subrange(from as int, i as int),
        decreases to - i,
    {
        out.push(chars[i]);
        assert(chars@.subrange(from as int, i + 1) =~= chars@.subrange(from as int, i as int).push(
            chars@[i as int],
        ));
        assert(out@ =~= old(out)@ + chars@.subrange(from as int, i + 1));
        i += 1;
    }
}

/// Rewrites `text` with the matches `found`, given as byte offsets into the
/// UTF-8 encoding of `text`, as the table says.
pub fn rewrite_matches(text: &[char], table: &ReplacementTable, found: &Vec<(usize, usize)>) -> (out:
    Vec<char>)
    ensures
        out@ == rewritten_with(text@, table@, found@),
{
    let offsets = offsets_of(text);
    let mut out: Vec<char> = Vec::new();
    let mut last_end: usize = 0;
    let mut n: usize = 0;
    while n < found.len()
        invariant
            n <= found@.len(),
            last_end <= text@.len(),
            offsets@.len() == text@.len() + 1,
            forall|i: int| 0 <= i <= text@.len() ==> offsets@[i] == byte_offset(text@, i as nat),
            apply_matches(text@, table@, found@, n as nat) == (Rewrite {
                out: out@,
                last_end: last_end as int,
            }),
        decreases found@.len() - n,
    {
        let m = found[n];
        let start = position_at(text, &offsets, m.0);
        let end = position_at(text, &offsets, m.1);
        if let (Some(start), Some(end)) = (start, end) {
            if start <= end && start >= last_end {
                let before = if start > 0 {
                    Some(text[start - 1])
                } else {
                    None
                };
                let after = if end < text.len() {
                    Some(text[end])
                } else {
                    None
                };
                if boundary(before) && boundary(after) {
                    let matched = copy_range(text, start, end);
                    let key = string_from_chars(matched.as_slice());
                    match table.get(key.as_str()) {
                        Some(target) => {
                            append_chars(&mut out, text, last_end, start);
                            match target {
                                Some(replacement) => {
                                    let r = to_chars(replacement.as_str());
                                    let len = r.len();
                                    append_chars(&mut out, r.as_slice(), 0, len);
                                    assert(r@.subrange(0, len as int) =~= r@);
                                    last_end = end;
                                },
                                None => {
                                    last_end = calculate_deletion_end(text, end);
                                },
                            }
                        },
                        None => {},
                    }
                }
            }
        }
        n += 1;
    }
    let len = text.len();
    append_chars(&mut out, text, last_end, len);
    assert(text@.subrange(last_end as int, len as int) =~= text@.skip(last_end as int));
    out
}

fn keys(table: &ReplacementTable) -> (k: Vec<String>)
    ensures
        strings_view(k@) == keys_of(table@),
{
    let entries = table.entries();
    let mut k: Vec<String> = Vec::new();
    let mut i: usize = 0;
    while i < entries.len()
        invariant
            i <= entries@.len(),
            entry_views(entries@) == table@,
            k@.len() == i,
            forall|j: int| 0 <= j < i ==> (#[trigger] k@[j])@ == table@[j].0,
        decreases entries@.len() - i,
    {
        assert(entry_views(entries@)[i as int].0 == entries@[i as int].0@);
        k.push(entries[i].0.clone());
        i += 1;
    }
    assert(strings_view(k@) =~= keys_of(table@));
    k
}

/// Applies the table to `text`: every leftmost-longest match of one of the
/// table's texts that stands as a whole word is replaced or deleted.
pub fn apply_replacements(text: &str, replacements: &ReplacementTable) -> (s: String)
    ensures
        s@ == replaced(text@, replacements@),
{
    let chars = to_chars(text);
    if chars.len() == 0 || replacements.is_empty() {
        return String::from_str(text);
    }
    let patterns = keys(replacements);
    match find_matches(&patterns, text) {
        Some(found) => {
            let out = rewrite_matches(chars.as_slice(), replacements, &found);
            string_from_chars(out.as_slice())
        },
        None => String::from_str(text),
    }
}

/// Cleans a transcription under the replacement table of `config`.
pub fn handle_transcribed_text(text: String, config: &Config) -> (s: String)
    ensures
        s@ == cleaned(text@, config.transcription_replace_text@),
{
    let chars = to_chars(text.as_str());
    let t = trimmed(chars.as_slice());
    let offsets = offsets_of(t.as_slice());
    if offsets[t.len()] < 3 {
        return String::new();
    }
    let text = string_from_chars(t.as_slice());
    apply_replacements(text.as_str(), config.transcription_replacements())
}

} // verus!
