//! Conflict resolution: how a single-key pattern fires when richer patterns
//! start with the same key.

use crate::key::Key;
use crate::patterns::{pattern_timeout, pattern_type, trigger_key, Pattern, PatternModel};
use crate::patterns::single::SingleModel;
use crate::types::{add_saturating, saturating_sum, ConflictStrategy, PatternType};
use vstd::prelude::*;

verus! {

/// The margin added to the longest double-tap time limit when none is given.
pub const DEFAULT_BUFFER_MS: u64 = 50;

/// The contents of a list of patterns.
pub open spec fn pattern_views(patterns: Seq<Pattern>) -> Seq<PatternModel> {
    Seq::new(patterns.len(), |i: int| patterns[i]@)
}

/// Whether every pattern of the list is well formed.
pub open spec fn all_wf(patterns: Seq<Pattern>) -> bool {
    forall|i: int| 0 <= i < patterns.len() ==> (#[trigger] patterns[i]).wf()
}

/// How many of the first `n` patterns start with `key`.
pub open spec fn group_count(patterns: Seq<PatternModel>, key: Key, n: nat) -> nat
    decreases n,
{
    if n == 0 {
        0
    } else {
        group_count(patterns, key, (n - 1) as nat) + if trigger_key(patterns[n - 1]) == key {
            1nat
        } else {
            0nat
        }
    }
}

/// Whether one of the first `n` patterns starts with `key` and is of `kind`.
pub open spec fn group_has(patterns: Seq<PatternModel>, key: Key, kind: PatternType, n: nat) -> bool
    decreases n,
{
    if n == 0 {
        false
    } else {
        group_has(patterns, key, kind, (n - 1) as nat) || (trigger_key(patterns[n - 1]) == key
            && pattern_type(patterns[n - 1]) == kind)
    }
}

/// The longest time limit among the double taps on `key` in the first `n`
/// patterns; zero if there is none.
pub open spec fn max_double_timeout(patterns: Seq<PatternModel>, key: Key, n: nat) -> u64
    decreases n,
{
    if n == 0 {
        0
    } else {
        let rest = max_double_timeout(patterns, key, (n - 1) as nat);
        let p = patterns[n - 1];
        if trigger_key(p) == key && pattern_type(p) == PatternType::DoubleTap && pattern_timeout(
            p,
        ) is Some && pattern_timeout(p)->0 > rest {
            pattern_timeout(p)->0
        } else {
            rest
        }
    }
}

/// The strategy of a single-key pattern that shares its key: wait for the
/// release if a combo starts with the key; else, if a double tap does, wait
/// out the longest time limit and the margin; else fire at once.
pub open spec fn strategy_for(
    has_combo: bool,
    has_double: bool,
    max_timeout: u64,
    buffer_ms: u64,
) -> ConflictStrategy {
    if has_combo {
        ConflictStrategy::FireOnRelease
    } else if has_double {
        ConflictStrategy::DelayedFire { delay_ms: saturating_sum(max_timeout, buffer_ms) }
    } else {
        ConflictStrategy::Immediate
    }
}

/// The strategy that resolution gives the single-key patterns on `key`.
pub open spec fn group_strategy(patterns: Seq<PatternModel>, key: Key, buffer_ms: u64)
    -> ConflictStrategy {
    strategy_for(
        group_has(patterns, key, PatternType::Combo, patterns.len()),
        group_has(patterns, key, PatternType::DoubleTap, patterns.len()),
        max_double_timeout(patterns, key, patterns.len()),
        buffer_ms,
    )
}

/// Pattern `i` after resolution: a single-key pattern whose key starts more
/// than one pattern gets the strategy of its group; every other pattern stays.
pub open spec fn resolved_pattern(patterns: Seq<PatternModel>, buffer_ms: u64, i: int)
    -> PatternModel {
    match patterns[i] {
        PatternModel::Single(s) => if group_count(patterns, s.key, patterns.len()) > 1 {
            PatternModel::Single(
                SingleModel { conflict_strategy: group_strategy(patterns, s.key, buffer_ms), ..s },
            )
        } else {
            patterns[i]
        },
        _ => patterns[i],
    }
}

/// The list after resolution.
pub open spec fn resolved(patterns: Seq<PatternModel>, buffer_ms: u64) -> Seq<PatternModel> {
    Seq::new(patterns.len(), |i: int| resolved_pattern(patterns, buffer_ms, i))
}

/// Whether two lists agree, position by position, on trigger key, kind and
/// time limit.
pub open spec fn same_shape(a: Seq<PatternModel>, b: Seq<PatternModel>) -> bool {
    &&& a.len() == b.len()
    &&& forall|j: int|
        0 <= j < a.len() ==> {
            &&& trigger_key(#[trigger] a[j]) == trigger_key(b[j])
            &&& pattern_type(a[j]) == pattern_type(b[j])
            &&& pattern_timeout(a[j]) == pattern_timeout(b[j])
        }
}

/// What resolution looks at is the same in lists of the same shape.
pub proof fn lemma_group_facts(a: Seq<PatternModel>, b: Seq<PatternModel>, key: Key, n: nat)
    requires
        same_shape(a, b),
        n <= a.len(),
    ensures
        group_count(a, key, n) == group_count(b, key, n),
        group_has(a, key, PatternType::Combo, n) == group_has(b, key, PatternType::Combo, n),
        group_has(a, key, PatternType::DoubleTap, n) == group_has(
            b,
            key,
            PatternType::DoubleTap,
            n,
        ),
        max_double_timeout(a, key, n) == max_double_timeout(b, key, n),
    decreases n,
{
    if n > 0 {
        lemma_group_facts(a, b, key, (n - 1) as nat);
        assert(trigger_key(a[n - 1]) == trigger_key(b[n - 1]));
    }
}

/// Conflict determinism: the strategy that resolution assigns is a function of
/// the kinds and time limits of the patterns that share the trigger key, and
/// of the margin. Two lists that agree on trigger keys, kinds and time limits
/// get the same strategy on every shared key, whatever else differs in them
/// (actions, strategies set before, matches in progress).
pub proof fn lemma_conflict_determinism(
    a: Seq<PatternModel>,
    b: Seq<PatternModel>,
    buffer_ms: u64,
)
    requires
        same_shape(a, b),
    ensures
        forall|i: int|
            0 <= i < a.len() && (#[trigger] a[i]) is Single && group_count(
                a,
                trigger_key(a[i]),
                a.len(),
            ) > 1 ==> {
                &&& resolved(a, buffer_ms)[i] is Single
                &&& resolved(b, buffer_ms)[i] is Single
                &&& resolved(a, buffer_ms)[i]->Single_0.conflict_strategy == resolved(
                    b,
                    buffer_ms,
                )[i]->Single_0.conflict_strategy
                &&& resolved(a, buffer_ms)[i]->Single_0.conflict_strategy == group_strategy(
                    a,
                    trigger_key(a[i]),
                    buffer_ms,
                )
            },
{
    assert forall|i: int|
        0 <= i < a.len() && (#[trigger] a[i]) is Single && group_count(
            a,
            trigger_key(a[i]),
            a.len(),
        ) > 1 implies {
        &&& resolved(a, buffer_ms)[i] is Single
        &&& resolved(b, buffer_ms)[i] is Single
        &&& resolved(a, buffer_ms)[i]->Single_0.conflict_strategy == resolved(
            b,
            buffer_ms,
        )[i]->Single_0.conflict_strategy
        &&& resolved(a, buffer_ms)[i]->Single_0.conflict_strategy == group_strategy(
            a,
            trigger_key(a[i]),
            buffer_ms,
        )
    } by {
        let key = trigger_key(a[i]);
        lemma_group_facts(a, b, key, a.len());
        assert(pattern_type(b[i]) == PatternType::Single);
        assert(trigger_key(b[i]) == key);
    }
}

/// What resolution needs to know about the patterns that start with one key.
struct GroupFacts {
    count: usize,
    has_combo: bool,
    has_double: bool,
    max_timeout: u64,
}

/// Rewrites the firing strategy of single-key patterns that share their key.
#[derive(Clone, Copy, Debug)]
pub struct ConflictResolver {
    buffer_ms: u64,
}

impl ConflictResolver {
    /// The margin added to the longest double-tap time limit.
    pub closed spec fn spec_buffer_ms(&self) -> u64 {
        self.buffer_ms
    }

    /// A resolver with the given margin.
    pub fn new(buffer_ms: u64) -> (r: Self)
        ensures
            r.spec_buffer_ms() == buffer_ms,
    {
        ConflictResolver { buffer_ms }
    }

    /// The margin.
    pub fn buffer_ms(&self) -> (b: u64)
        ensures
            b == self.spec_buffer_ms(),
    {
        self.buffer_ms
    }

    /// Gives every single-key pattern of a shared key the strategy of its
    /// group and leaves everything else as it is.
    pub fn analyze_and_mark_conflicts(&self, patterns: &mut Vec<Pattern>)
        requires
            all_wf(old(patterns)@),
        ensures
            all_wf(final(patterns)@),
            pattern_views(final(patterns)@) == resolved(
                pattern_views(old(patterns)@),
                self.spec_buffer_ms(),
            ),
    {
        let ghost before = pattern_views(patterns@);
        let n = patterns.len();
        let mut i: usize = 0;
        while i < n
            invariant
                n == patterns@.len(),
                before.len() == n,
                i <= n,
                all_wf(patterns@),
                forall|k: int|
                    0 <= k < i ==> (#[trigger] patterns@[k])@ == resolved_pattern(
                        before,
                        self.spec_buffer_ms(),
                        k,
                    ),
                forall|k: int| i <= k < n ==> (#[trigger] patterns@[k])@ == before[k],
            decreases n - i,
        {
            proof {
                patterns@[i as int].lemma_wf();
            }
            if let PatternType::Single = patterns[i].get_type() {
                let key = patterns[i].get_trigger_key();
                let facts = group_facts(patterns, key);
                proof {
                    let now = pattern_views(patterns@);
                    assert(same_shape(now, before)) by {
                        assert forall|j: int| 0 <= j < now.len() implies {
                            &&& trigger_key(#[trigger] now[j]) == trigger_key(before[j])
                            &&& pattern_type(now[j]) == pattern_type(before[j])
                            &&& pattern_timeout(now[j]) == pattern_timeout(before[j])
                        } by {
                            if j < i {
                                assert(patterns@[j]@ == resolved_pattern(
                                    before,
                                    self.spec_buffer_ms(),
                                    j,
                                ));
                            } else {
                                assert(patterns@[j]@ == before[j]);
                            }
                        }
                    }
                    lemma_group_facts(now, before, key, n as nat);
                }
                if facts.count > 1 {
                    let strategy = if facts.has_combo {
                        ConflictStrategy::FireOnRelease
                    } else if facts.has_double {
                        ConflictStrategy::DelayedFire {
                            delay_ms: add_saturating(facts.max_timeout, self.buffer_ms),
                        }
                    } else {
                        ConflictStrategy::Immediate
                    };
                    match &mut patterns[i] {
                        Pattern::Single(single) => {
                            single.set_conflict_strategy(strategy);
                        },
                        _ => {},
                    }
                }
            }
            i += 1;
        }
        assert(pattern_views(patterns@) =~= resolved(before, self.spec_buffer_ms()));
    }
}

fn group_facts(patterns: &Vec<Pattern>, key: Key) -> (facts: GroupFacts)
    requires
        all_wf(patterns@),
    ensures
        facts.count == group_count(pattern_views(patterns@), key, patterns@.len()),
        facts.has_combo == group_has(
            pattern_views(patterns@),
            key,
            PatternType::Combo,
            patterns@.len(),
        ),
        facts.has_double == group_has(
            pattern_views(patterns@),
            key,
            PatternType::DoubleTap,
            patterns@.len(),
        ),
        facts.max_timeout == max_double_timeout(pattern_views(patterns@), key, patterns@.len()),
{
    let ghost views = pattern_views(patterns@);
    let mut facts = GroupFacts { count: 0, has_combo: false, has_double: false, max_timeout: 0 };
    let mut j: usize = 0;
    while j < patterns.len()
        invariant
            j <= patterns@.len(),
            all_wf(patterns@),
            views == pattern_views(patterns@),
            facts.count == group_count(views, key, j as nat),
            facts.count <= j,
            facts.has_combo == group_has(views, key, PatternType::Combo, j as nat),
            facts.has_double == group_has(views, key, PatternType::DoubleTap, j as nat),
            facts.max_timeout == max_double_timeout(views, key, j as nat),
        decreases patterns@.len() - j,
    {
        assert(views[j as int] == patterns@[j as int]@);
        if patterns[j].get_trigger_key() == key {
            facts.count += 1;
            match patterns[j].get_type() {
                PatternType::Single => {},
                PatternType::Combo => {
                    facts.has_combo = true;
                },
                PatternType::DoubleTap => {
                    facts.has_double = true;
                    if let Some(timeout) = patterns[j].get_timeout() {
                        if timeout > facts.max_timeout {
                            facts.max_timeout = timeout;
                        }
                    }
                },
            }
        }
        j += 1;
    }
    facts
}

} // verus!
