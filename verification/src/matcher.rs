//! The shortcut matcher: one key event in, at most one action out at once,
//! with delayed actions scheduled and cancelled by id.

use crate::conflict_resolver::{all_wf, pattern_views};
use crate::key::Key;
use crate::key_set::KeySet;
use crate::patterns::{
    partial_match, pattern_expired, pattern_ok, pattern_press, pattern_release, pattern_reset,
    pattern_timeout, same_identity, trigger_key, Pattern, PatternModel,
};
use crate::types::{
    add_saturating, saturating_sum, DelayedAction, DelayedActionId, KeyEvent, MatchOutcome,
    MatchResult, ShortcutAction,
};
use vstd::prelude::*;

verus! {

/// Whether pattern `a` is dispatched before pattern `b`: shorter time limits
/// first, patterns without a time limit last, earlier patterns first among
/// equals.
pub open spec fn comes_before(patterns: Seq<PatternModel>, a: int, b: int) -> bool {
    match (pattern_timeout(patterns[a]), pattern_timeout(patterns[b])) {
        (Some(x), Some(y)) => x < y || (x == y && a < b),
        (Some(_), None) => true,
        (None, Some(_)) => false,
        (None, None) => a < b,
    }
}

/// `order` with `i` put behind the last entry that comes before it.
pub open spec fn insert_by_priority(patterns: Seq<PatternModel>, order: Seq<usize>, i: usize)
    -> Seq<usize>
    decreases order.len(),
{
    if order.len() == 0 {
        seq![i]
    } else if comes_before(patterns, order.last() as int, i as int) {
        order.push(i)
    } else {
        insert_by_priority(patterns, order.drop_last(), i).push(order.last())
    }
}

/// The first `n` pattern indices in dispatch order.
pub open spec fn priority_order(patterns: Seq<PatternModel>, n: nat) -> Seq<usize>
    decreases n,
{
    if n == 0 {
        Seq::empty()
    } else {
        insert_by_priority(patterns, priority_order(patterns, (n - 1) as nat), (n - 1) as usize)
    }
}

/// Whether `order` lists every index below `n` once, each before all that it
/// comes before.
pub open spec fn is_priority_order(patterns: Seq<PatternModel>, order: Seq<usize>, n: nat) -> bool {
    &&& order.len() == n
    &&& forall|k: int| 0 <= k < order.len() ==> (#[trigger] order[k]) < n
    &&& forall|k: int, l: int|
        0 <= k < l < order.len() ==> comes_before(
            patterns,
            (#[trigger] order[k]) as int,
            (#[trigger] order[l]) as int,
        )
    &&& forall|i: usize| i < n ==> #[trigger] order.contains(i)
}

/// Inserting at the point where everything after comes later and the entry
/// before comes first is inserting by priority.
pub proof fn lemma_insert_at(patterns: Seq<PatternModel>, order: Seq<usize>, i: usize, p: int)
    requires
        0 <= p <= order.len(),
        forall|k: int| p <= k < order.len() ==> !comes_before(patterns, order[k] as int, i as int),
        p > 0 ==> comes_before(patterns, order[p - 1] as int, i as int),
    ensures
        insert_by_priority(patterns, order, i) == order.insert(p, i),
    decreases order.len() - p,
{
    if order.len() == 0 {
        assert(order.insert(p, i) =~= seq![i]);
    } else if p == order.len() {
        assert(order.insert(p, i) =~= order.push(i));
    } else {
        lemma_insert_at(patterns, order.drop_last(), i, p);
        assert(order.drop_last().insert(p, i).push(order.last()) =~= order.insert(p, i));
    }
}

/// Inserting a new index keeps a priority order a priority order.
pub proof fn lemma_insert_keeps_order(patterns: Seq<PatternModel>, order: Seq<usize>, n: nat)
    requires
        is_priority_order(patterns, order, n),
        n < usize::MAX,
    ensures
        is_priority_order(patterns, insert_by_priority(patterns, order, n as usize), n + 1),
    decreases order.len(),
{
    let i = n as usize;
    let p = insertion_point(patterns, order, i);
    lemma_insertion_point(patterns, order, i);
    lemma_insert_at(patterns, order, i, p);
    let out = order.insert(p, i);
    assert forall|k: int| 0 <= k < out.len() implies (#[trigger] out[k]) < n + 1 by {
        if k < p {
            assert(out[k] == order[k]);
        } else if k > p {
            assert(out[k] == order[k - 1]);
        }
    }
    assert forall|k: int, l: int| 0 <= k < l < out.len() implies comes_before(
        patterns,
        (#[trigger] out[k]) as int,
        (#[trigger] out[l]) as int,
    ) by {
        let a = if k < p {
            order[k]
        } else if k == p {
            i
        } else {
            order[k - 1]
        };
        let b = if l < p {
            order[l]
        } else if l == p {
            i
        } else {
            order[l - 1]
        };
        assert(out[k] == a && out[l] == b);
        if l == p {
            // every entry before the insertion point comes before `i`
            if k < p - 1 {
                assert(comes_before(patterns, order[k] as int, order[p - 1] as int));
            }
        } else if k == p {
            // `i` is the newest index: what does not come before it comes after
            assert(!comes_before(patterns, order[l - 1] as int, i as int));
        } else if k < p {
            if l < p {
                assert(comes_before(patterns, order[k] as int, order[l] as int));
            } else {
                assert(comes_before(patterns, order[k] as int, order[l - 1] as int));
            }
        } else {
            assert(comes_before(patterns, order[k - 1] as int, order[l - 1] as int));
        }
    }
    assert forall|j: usize| j < n + 1 implies #[trigger] out.contains(j) by {
        if j == n {
            assert(out[p] == i);
        } else {
            assert(order.contains(j));
            let k = order.index_of(j);
            if k < p {
                assert(out[k] == j);
            } else {
                assert(out[k + 1] == j);
            }
        }
    }
}

/// The position behind the last entry of `order` that comes before `i`.
pub open spec fn insertion_point(patterns: Seq<PatternModel>, order: Seq<usize>, i: usize) -> int
    decreases order.len(),
{
    if order.len() == 0 {
        0
    } else if comes_before(patterns, order.last() as int, i as int) {
        order.len() as int
    } else {
        insertion_point(patterns, order.drop_last(), i)
    }
}

/// What the insertion point is.
pub proof fn lemma_insertion_point(patterns: Seq<PatternModel>, order: Seq<usize>, i: usize)
    ensures
        0 <= insertion_point(patterns, order, i) <= order.len(),
        forall|k: int|
            insertion_point(patterns, order, i) <= k < order.len() ==> !comes_before(
                patterns,
                order[k] as int,
                i as int,
            ),
        insertion_point(patterns, order, i) > 0 ==> comes_before(
            patterns,
            order[insertion_point(patterns, order, i) - 1] as int,
            i as int,
        ),
    decreases order.len(),
{
    if order.len() > 0 && !comes_before(patterns, order.last() as int, i as int) {
        lemma_insertion_point(patterns, order.drop_last(), i);
        let p = insertion_point(patterns, order.drop_last(), i);
        assert forall|k: int| p <= k < order.len() implies !comes_before(
            patterns,
            order[k] as int,
            i as int,
        ) by {
            if k < order.len() - 1 {
                assert(order.drop_last()[k] == order[k]);
            }
        }
        if p > 0 {
            assert(order.drop_last()[p - 1] == order[p - 1]);
        }
    }
}

/// The dispatch order lists every pattern once, sorted by priority.
pub proof fn lemma_priority_order(patterns: Seq<PatternModel>, n: nat)
    requires
        n <= usize::MAX,
    ensures
        is_priority_order(patterns, priority_order(patterns, n), n),
    decreases n,
{
    if n > 0 {
        lemma_priority_order(patterns, (n - 1) as nat);
        lemma_insert_keeps_order(patterns, priority_order(patterns, (n - 1) as nat), (n - 1) as nat);
    }
}

/// Whether two lists hold the same patterns but for the progress of their
/// matches.
pub open spec fn same_identities(a: Seq<PatternModel>, b: Seq<PatternModel>) -> bool {
    &&& a.len() == b.len()
    &&& forall|i: int| 0 <= i < a.len() ==> same_identity(#[trigger] a[i], b[i])
}

/// The dispatch order does not depend on the progress of matches.
pub proof fn lemma_order_of_identities(a: Seq<PatternModel>, b: Seq<PatternModel>, n: nat)
    requires
        same_identities(a, b),
        n <= a.len() <= usize::MAX,
    ensures
        priority_order(a, n) == priority_order(b, n),
    decreases n,
{
    if n > 0 {
        lemma_order_of_identities(a, b, (n - 1) as nat);
        lemma_priority_order(a, (n - 1) as nat);
        lemma_insert_of_identities(a, b, priority_order(a, (n - 1) as nat), (n - 1) as usize);
    }
}

proof fn lemma_insert_of_identities(
    a: Seq<PatternModel>,
    b: Seq<PatternModel>,
    order: Seq<usize>,
    i: usize,
)
    requires
        same_identities(a, b),
        i < a.len(),
        forall|k: int| 0 <= k < order.len() ==> (#[trigger] order[k]) < a.len(),
    ensures
        insert_by_priority(a, order, i) == insert_by_priority(b, order, i),
    decreases order.len(),
{
    if order.len() > 0 {
        assert(same_identity(a[order.last() as int], b[order.last() as int]));
        assert(same_identity(a[i as int], b[i as int]));
        lemma_insert_of_identities(a, b, order.drop_last(), i);
    }
}

/// The mathematical content of a [`ShortcutMatcher`].
pub struct MatcherModel {
    pub patterns: Seq<PatternModel>,
    /// For each pattern, whether it has answered with a partial match and has
    /// not been reset since.
    pub active: Seq<bool>,
    /// The ids of the delayed actions handed out and not cancelled.
    pub pending_ids: Seq<DelayedActionId>,
    /// The number of the next delayed action.
    pub next_id: u64,
}

/// A matcher that holds `patterns` and has seen no event.
pub open spec fn fresh_matcher(patterns: Seq<PatternModel>, next_id: u64) -> MatcherModel {
    MatcherModel {
        patterns,
        active: Seq::new(patterns.len(), |i: int| false),
        pending_ids: Seq::empty(),
        next_id,
    }
}

/// The keys that start some pattern.
pub open spec fn trigger_keys(patterns: Seq<PatternModel>) -> Set<Key> {
    Set::new(|k: Key| exists|i: int| 0 <= i < patterns.len() && trigger_key(#[trigger] patterns[i]) == k)
}

/// Whether some pattern is active.
pub open spec fn any_active(active: Seq<bool>) -> bool {
    exists|i: int| 0 <= i < active.len() && #[trigger] active[i]
}

/// Whether an active pattern has a match in progress.
pub open spec fn has_partial(m: MatcherModel) -> bool {
    exists|i: int|
        0 <= i < m.patterns.len() && 0 <= i < m.active.len() && m.active[i] && partial_match(
            #[trigger] m.patterns[i],
        )
}

/// The matcher after patterns whose time has run out were reset and dropped
/// from the active ones.
pub open spec fn expire(m: MatcherModel, now: u64) -> MatcherModel {
    MatcherModel {
        patterns: Seq::new(
            m.patterns.len(),
            |i: int|
                if m.active[i] && pattern_expired(m.patterns[i], now) {
                    pattern_reset(m.patterns[i])
                } else {
                    m.patterns[i]
                },
        ),
        active: Seq::new(
            m.patterns.len(),
            |i: int| m.active[i] && !pattern_expired(m.patterns[i], now),
        ),
        ..m
    }
}

/// The matcher after every active pattern was reset and none is active.
pub open spec fn reset_active(m: MatcherModel) -> MatcherModel {
    MatcherModel {
        patterns: Seq::new(
            m.patterns.len(),
            |i: int|
                if m.active[i] {
                    pattern_reset(m.patterns[i])
                } else {
                    m.patterns[i]
                },
        ),
        active: Seq::new(m.patterns.len(), |i: int| false),
        ..m
    }
}

/// The matcher and what one event has produced so far.
pub struct Progress {
    pub matcher: MatcherModel,
    /// The delayed actions scheduled by this event.
    pub delayed: Seq<DelayedAction>,
    /// The ids cancelled by this event.
    pub cancelled: Seq<DelayedActionId>,
    /// The action that a pattern completed, which ends the event.
    pub fired: Option<ShortcutAction>,
}

/// The three passes over the patterns.
#[derive(Clone, Copy, Debug)]
pub enum Phase {
    /// A press goes to the patterns that are active.
    Active,
    /// A press goes to the inactive patterns that the key starts.
    Candidate,
    /// A release goes to the patterns that are active.
    Release,
}

/// The start of an event: nothing produced yet.
pub open spec fn begin(m: MatcherModel) -> Progress {
    Progress { matcher: m, delayed: Seq::empty(), cancelled: Seq::empty(), fired: None }
}

/// A pattern completed: every outstanding id is cancelled, what this event
/// scheduled is dropped, and the active patterns are reset.
pub open spec fn fire(p: Progress, action: ShortcutAction) -> Progress {
    Progress {
        matcher: MatcherModel { pending_ids: Seq::empty(), ..reset_active(p.matcher) },
        delayed: Seq::empty(),
        cancelled: p.cancelled + p.matcher.pending_ids,
        fired: Some(action),
    }
}

/// The id after `id`; the count starts over after the last `u64`.
pub open spec fn next_id_after(id: u64) -> u64 {
    if id == u64::MAX {
        0
    } else {
        (id + 1) as u64
    }
}

/// A pattern asked for a delayed action: it gets the next id and is due
/// `wait_ms` after `now`.
pub open spec fn schedule(p: Progress, action: ShortcutAction, wait_ms: u64, now: u64) -> Progress {
    let id = DelayedActionId(p.matcher.next_id);
    Progress {
        matcher: MatcherModel {
            pending_ids: p.matcher.pending_ids.push(id),
            next_id: next_id_after(p.matcher.next_id),
            ..p.matcher
        },
        delayed: p.delayed.push(
            DelayedAction { id, action, trigger_at: saturating_sum(now, wait_ms) },
        ),
        ..p
    }
}

/// The progress with pattern `idx` replaced.
pub open spec fn with_pattern(p: Progress, idx: int, pattern: PatternModel) -> Progress {
    Progress {
        matcher: MatcherModel { patterns: p.matcher.patterns.update(idx, pattern), ..p.matcher },
        ..p
    }
}

/// The progress with pattern `idx` marked active or not.
pub open spec fn with_active(p: Progress, idx: int, active: bool) -> Progress {
    Progress {
        matcher: MatcherModel { active: p.matcher.active.update(idx, active), ..p.matcher },
        ..p
    }
}

/// Whether pattern `idx` takes part in `phase` for `key`.
pub open spec fn takes_part(phase: Phase, m: MatcherModel, idx: int, key: Key) -> bool {
    &&& 0 <= idx < m.patterns.len()
    &&& 0 <= idx < m.active.len()
    &&& match phase {
        Phase::Active => m.active[idx],
        Phase::Candidate => !m.active[idx] && trigger_key(m.patterns[idx]) == key,
        Phase::Release => m.active[idx],
    }
}

/// One pattern's turn. Nothing happens once an action has fired or where the
/// pattern does not take part. Otherwise the pattern gets the event, and its
/// answer decides: a completion fires; a delay is scheduled (on a press); a
/// partial match makes a candidate active; no match drops an active pattern
/// from the active ones on a press.
pub open spec fn visit(phase: Phase, p: Progress, idx: int, key: Key, now: u64) -> Progress {
    if p.fired is Some || !takes_part(phase, p.matcher, idx, key) {
        p
    } else {
        let answer = match phase {
            Phase::Release => pattern_release(p.matcher.patterns[idx], key, now),
            _ => pattern_press(p.matcher.patterns[idx], key, now),
        };
        let q = with_pattern(p, idx, answer.0);
        match answer.1 {
            MatchOutcome::Complete { action } => fire(q, action),
            MatchOutcome::Delayed { action, wait_ms } => match phase {
                Phase::Release => q,
                _ => schedule(q, action, wait_ms, now),
            },
            MatchOutcome::Partial { .. } => match phase {
                Phase::Candidate => with_active(q, idx, true),
                _ => q,
            },
            MatchOutcome::NoMatch => match phase {
                Phase::Active => with_active(q, idx, false),
                _ => q,
            },
        }
    }
}

/// The turns of the first `k` patterns of `order`.
pub open spec fn sweep(phase: Phase, p: Progress, order: Seq<usize>, k: nat, key: Key, now: u64)
    -> Progress
    decreases k,
{
    if k == 0 {
        p
    } else {
        visit(phase, sweep(phase, p, order, (k - 1) as nat, key, now), order[k - 1] as int, key, now)
    }
}

/// What one event does: expired patterns are dropped; a press goes to the
/// active patterns and then to the candidates, a release to the active
/// patterns, each pass in dispatch order.
pub open spec fn matcher_step(m: MatcherModel, event: KeyEvent, now: u64) -> Progress {
    let expired = expire(m, now);
    let order = priority_order(expired.patterns, expired.patterns.len());
    let n = order.len();
    match event {
        KeyEvent::Press(key) => sweep(
            Phase::Candidate,
            sweep(Phase::Active, begin(expired), order, n, key, now),
            order,
            n,
            key,
            now,
        ),
        KeyEvent::Release(key) => sweep(Phase::Release, begin(expired), order, n, key, now),
    }
}

/// Once an action has fired, the remaining turns change nothing.
pub proof fn lemma_sweep_fired(
    phase: Phase,
    p: Progress,
    order: Seq<usize>,
    k: nat,
    n: nat,
    key: Key,
    now: u64,
)
    requires
        k <= n,
        sweep(phase, p, order, k, key, now).fired is Some,
    ensures
        sweep(phase, p, order, n, key, now) == sweep(phase, p, order, k, key, now),
    decreases n - k,
{
    if k < n {
        lemma_sweep_fired(phase, p, order, k, (n - 1) as nat, key, now);
    }
}

/// The matcher.
#[derive(Debug)]
pub struct ShortcutMatcher {
    patterns: Vec<Pattern>,
    /// The pattern indices in dispatch order.
    order: Vec<usize>,
    active: Vec<bool>,
    pending_delayed_ids: Vec<DelayedActionId>,
    activation_keys: KeySet,
    next_id: u64,
}

impl View for ShortcutMatcher {
    type V = MatcherModel;

    closed spec fn view(&self) -> MatcherModel {
        MatcherModel {
            patterns: pattern_views(self.patterns@),
            active: self.active@,
            pending_ids: self.pending_delayed_ids@,
            next_id: self.next_id,
        }
    }
}

/// What an event produced, as the matcher hands it out.
pub struct StepOutput {
    pub action: Option<ShortcutAction>,
    pub delayed: Vec<DelayedAction>,
    pub cancelled: Vec<DelayedActionId>,
}

fn timeout_before(a: Option<u64>, a_index: usize, b: Option<u64>, b_index: usize) -> (r: bool)
    ensures
        r == match (a, b) {
            (Some(x), Some(y)) => x < y || (x == y && a_index < b_index),
            (Some(_), None) => true,
            (None, Some(_)) => false,
            (None, None) => a_index < b_index,
        },
{
    match a {
        Some(x) => match b {
            Some(y) => x < y || (x == y && a_index < b_index),
            None => true,
        },
        None => match b {
            Some(_) => false,
            None => a_index < b_index,
        },
    }
}

impl ShortcutMatcher {
    /// The invariant: every pattern is well formed, each has its active flag,
    /// and the dispatch order and the activation keys are those of the
    /// patterns.
    pub closed spec fn wf(&self) -> bool {
        &&& self.shape_ok()
        &&& self.order@ == priority_order(pattern_views(self.patterns@), self.patterns@.len())
        &&& self.activation_keys.wf()
        &&& self.activation_keys@ == trigger_keys(pattern_views(self.patterns@))
    }

    /// The part of the invariant that does not speak of the dispatch order:
    /// every pattern is well formed and has its active flag.
    pub closed spec fn shape_ok(&self) -> bool {
        &&& all_wf(self.patterns@)
        &&& self.active@.len() == self.patterns@.len()
        &&& self.patterns@.len() <= usize::MAX
    }

    /// What the invariant says of the view.
    pub proof fn lemma_wf(&self)
        requires
            self.shape_ok(),
        ensures
            self@.active.len() == self@.patterns.len(),
            self@.patterns.len() <= usize::MAX,
            forall|i: int| 0 <= i < self@.patterns.len() ==> pattern_ok(#[trigger] self@.patterns[i]),
    {
        assert forall|i: int| 0 <= i < self@.patterns.len() implies pattern_ok(
            #[trigger] self@.patterns[i],
        ) by {
            self.patterns@[i].lemma_wf();
        }
    }

    /// The pattern indices in dispatch order.
    fn build_index(patterns: &Vec<Pattern>) -> (order: Vec<usize>)
        ensures
            order@ == priority_order(pattern_views(patterns@), patterns@.len()),
    {
        let ghost views = pattern_views(patterns@);
        let mut order: Vec<usize> = Vec::new();
        let mut i: usize = 0;
        while i < patterns.len()
            invariant
                i <= patterns@.len(),
                views == pattern_views(patterns@),
                order@ == priority_order(views, i as nat),
            decreases patterns@.len() - i,
        {
            proof {
                lemma_priority_order(views, i as nat);
            }
            let timeout = patterns[i].get_timeout();
            let mut p: usize = order.len();
            while p > 0 && !timeout_before(patterns[order[p - 1]].get_timeout(), order[p - 1], timeout, i)
                invariant
                    p <= order@.len(),
                    i < patterns@.len(),
                    views == pattern_views(patterns@),
                    timeout == pattern_timeout(views[i as int]),
                    is_priority_order(views, order@, i as nat),
                    forall|k: int|
                        p <= k < order@.len() ==> !comes_before(views, order@[k] as int, i as int),
                decreases p,
            {
                p -= 1;
            }
            proof {
                lemma_insert_at(views, order@, i, p as int);
            }
            order.insert(p, i);
            i += 1;
        }
        order
    }

    /// A matcher over `patterns` whose delayed actions are numbered from zero.
    pub fn new(patterns: Vec<Pattern>) -> (m: Self)
        requires
            all_wf(patterns@),
        ensures
            m.wf(),
            m@ == fresh_matcher(pattern_views(patterns@), 0),
    {
        Self::with_first_id(patterns, 0)
    }

    /// A matcher over `patterns` whose delayed actions are numbered from
    /// `first_id`.
    pub fn with_first_id(patterns: Vec<Pattern>, first_id: u64) -> (m: Self)
        requires
            all_wf(patterns@),
        ensures
            m.wf(),
            m@ == fresh_matcher(pattern_views(patterns@), first_id),
    {
        let order = Self::build_index(&patterns);
        let ghost views = pattern_views(patterns@);
        let mut active: Vec<bool> = Vec::new();
        let mut activation_keys = KeySet::new();
        let mut i: usize = 0;
        while i < patterns.len()
            invariant
                i <= patterns@.len(),
                all_wf(patterns@),
                views == pattern_views(patterns@),
                active@ == Seq::new(i as nat, |j: int| false),
                activation_keys.wf(),
                activation_keys@ == trigger_keys(views.take(i as int)),
            decreases patterns@.len() - i,
        {
            active.push(false);
            assert(active@ =~= Seq::new((i + 1) as nat, |j: int| false));
            let keys = patterns[i].get_activation_keys();
            assert(keys@[0] == trigger_key(views[i as int]));
            activation_keys.insert(keys[0]);
            proof {
                let before = views.take(i as int);
                let after = views.take(i + 1);
                assert forall|k: Key|
                    trigger_keys(after).contains(k) == trigger_keys(before).insert(
                        trigger_key(views[i as int]),
                    ).contains(k) by {
                    if trigger_keys(after).contains(k) {
                        let j = choose|j: int|
                            0 <= j < after.len() && trigger_key(#[trigger] after[j]) == k;
                        if j < i {
                            assert(before[j] == after[j]);
                        }
                    }
                    if trigger_keys(before).contains(k) {
                        let j = choose|j: int|
                            0 <= j < before.len() && trigger_key(#[trigger] before[j]) == k;
                        assert(after[j] == before[j]);
                    }
                    if k == trigger_key(views[i as int]) {
                        assert(trigger_key(after[i as int]) == k);
                    }
                }
                assert(trigger_keys(after) =~= trigger_keys(before).insert(
                    trigger_key(views[i as int]),
                ));
            }
            i += 1;
        }
        assert(views.take(i as int) =~= views);
        assert(patterns@.len() <= usize::MAX);
        ShortcutMatcher {
            patterns,
            order,
            active,
            pending_delayed_ids: Vec::new(),
            activation_keys,
            next_id: first_id,
        }
    }

    /// The number of the next delayed action.
    pub fn next_id(&self) -> (id: u64)
        ensures
            id == self@.next_id,
    {
        self.next_id
    }

    /// The number of patterns.
    pub fn pattern_count(&self) -> (n: usize)
        ensures
            n == self@.patterns.len(),
    {
        self.patterns.len()
    }

    /// Takes one key event at time `now`.
    pub fn process_event(&mut self, event: KeyEvent, now: u64) -> (out: StepOutput)
        requires
            old(self).wf(),
        ensures
            final(self).wf(),
            final(self)@ == matcher_step(old(self)@, event, now).matcher,
            out.action == matcher_step(old(self)@, event, now).fired,
            out.delayed@ == matcher_step(old(self)@, event, now).delayed,
            out.cancelled@ == matcher_step(old(self)@, event, now).cancelled,
            same_identities(final(self)@.patterns, old(self)@.patterns),
    {
        self.cleanup_expired_patterns(now);
        let ghost expired = self@.patterns;
        proof {
            self.lemma_wf();
            lemma_priority_order(expired, expired.len());
        }
        let out = match event {
            KeyEvent::Press(key) => self.process_press(key, now),
            KeyEvent::Release(key) => self.process_release(key, now),
        };
        proof {
            lemma_identities_transitive(self@.patterns, expired, old(self)@.patterns);
        }
        out
    }

    /// A press: first to the active patterns, then to the inactive patterns
    /// that the key starts.
    fn process_press(&mut self, key: Key, now: u64) -> (out: StepOutput)
        requires
            old(self).wf(),
        ensures
            final(self).wf(),
            same_identities(final(self)@.patterns, old(self)@.patterns),
            (Progress {
                matcher: final(self)@,
                delayed: out.delayed@,
                cancelled: out.cancelled@,
                fired: out.action,
            }) == sweep(
                Phase::Candidate,
                sweep(
                    Phase::Active,
                    begin(old(self)@),
                    priority_order(old(self)@.patterns, old(self)@.patterns.len()),
                    old(self)@.patterns.len(),
                    key,
                    now,
                ),
                priority_order(old(self)@.patterns, old(self)@.patterns.len()),
                old(self)@.patterns.len(),
                key,
                now,
            ),
    {
        let ghost order = self.order@;
        let ghost n = order.len();
        let ghost start = self@.patterns;
        proof {
            self.lemma_wf();
            lemma_priority_order(self@.patterns, self@.patterns.len());
        }
        let mut delayed: Vec<DelayedAction> = Vec::new();
        let mut cancelled: Vec<DelayedActionId> = Vec::new();
        let fired = self.run_phase(Phase::Active, key, now, &mut delayed, &mut cancelled);
        let ghost between = self@.patterns;
        let action = match fired {
            Some(action) => {
                proof {
                    let first = sweep(Phase::Active, begin(old(self)@), order, n, key, now);
                    lemma_sweep_fired(Phase::Candidate, first, order, 0, n, key, now);
                }
                Some(action)
            },
            None => {
                let second = self.run_phase(
                    Phase::Candidate,
                    key,
                    now,
                    &mut delayed,
                    &mut cancelled,
                );
                proof {
                    lemma_identities_transitive(self@.patterns, between, start);
                }
                second
            },
        };
        StepOutput { action, delayed, cancelled }
    }

    /// A release goes to the active patterns.
    fn process_release(&mut self, key: Key, now: u64) -> (out: StepOutput)
        requires
            old(self).wf(),
        ensures
            final(self).wf(),
            same_identities(final(self)@.patterns, old(self)@.patterns),
            (Progress {
                matcher: final(self)@,
                delayed: out.delayed@,
                cancelled: out.cancelled@,
                fired: out.action,
            }) == sweep(
                Phase::Release,
                begin(old(self)@),
                priority_order(old(self)@.patterns, old(self)@.patterns.len()),
                old(self)@.patterns.len(),
                key,
                now,
            ),
    {
        proof {
            self.lemma_wf();
            lemma_priority_order(self@.patterns, self@.patterns.len());
        }
        let mut delayed: Vec<DelayedAction> = Vec::new();
        let mut cancelled: Vec<DelayedActionId> = Vec::new();
        let action = self.run_phase(Phase::Release, key, now, &mut delayed, &mut cancelled);
        StepOutput { action, delayed, cancelled }
    }

    /// One pass over the patterns in dispatch order, up to the first
    /// completion.
    fn run_phase(
        &mut self,
        phase: Phase,
        key: Key,
        now: u64,
        delayed: &mut Vec<DelayedAction>,
        cancelled: &mut Vec<DelayedActionId>,
    ) -> (fired: Option<ShortcutAction>)
        requires
            old(self).wf(),
        ensures
            final(self).wf(),
            final(self).order@ == old(self).order@,
            same_identities(final(self)@.patterns, old(self)@.patterns),
            (Progress {
                matcher: final(self)@,
                delayed: final(delayed)@,
                cancelled: final(cancelled)@,
                fired,
            }) == sweep(
                phase,
                Progress {
                    matcher: old(self)@,
                    delayed: old(delayed)@,
                    cancelled: old(cancelled)@,
                    fired: None,
                },
                old(self).order@,
                old(self).order@.len(),
                key,
                now,
            ),
    {
        let ghost start = Progress {
            matcher: self@,
            delayed: delayed@,
            cancelled: cancelled@,
            fired: None,
        };
        let ghost order = self.order@;
        let n = self.order.len();
        proof {
            old(self).lemma_wf();
            lemma_priority_order(self@.patterns, self@.patterns.len());
            lemma_identities_reflexive(self@.patterns);
        }
        let mut k: usize = 0;
        while k < n
            invariant
                old(self).wf(),
                start == (Progress {
                    matcher: old(self)@,
                    delayed: old(delayed)@,
                    cancelled: old(cancelled)@,
                    fired: None,
                }),
                n == order.len(),
                self.order@ == order,
                order == old(self).order@,
                k <= n,
                self.shape_ok(),
                self@.patterns.len() == old(self)@.patterns.len(),
                self.activation_keys == old(self).activation_keys,
                forall|j: int| 0 <= j < order.len() ==> (#[trigger] order[j]) < self@.patterns.len(),
                same_identities(self@.patterns, old(self)@.patterns),
                (Progress { matcher: self@, delayed: delayed@, cancelled: cancelled@, fired: None })
                    == sweep(phase, start, order, k as nat, key, now),
            decreases n - k,
        {
            let idx = self.order[k];
            let ghost before = self@.patterns;
            let fired = self.visit_pattern(phase, idx, key, now, delayed, cancelled);
            proof {
                lemma_identities_transitive(self@.patterns, before, old(self)@.patterns);
            }
            if let Some(action) = fired {
                proof {
                    let done = Progress {
                        matcher: self@,
                        delayed: delayed@,
                        cancelled: cancelled@,
                        fired: Some(action),
                    };
                    assert(sweep(phase, start, order, (k + 1) as nat, key, now) == visit(
                        phase,
                        sweep(phase, start, order, k as nat, key, now),
                        order[k as int] as int,
                        key,
                        now,
                    ));
                    assert(sweep(phase, start, order, (k + 1) as nat, key, now) == done);
                    lemma_sweep_fired(phase, start, order, (k + 1) as nat, n as nat, key, now);

                    self.lemma_wf_from_identities(old(self));
                }
                return Some(action);
            }
            k += 1;
        }
        proof {
            self.lemma_wf_from_identities(old(self));
        }
        None
    }

    /// The turn of pattern `idx`.
    fn visit_pattern(
        &mut self,
        phase: Phase,
        idx: usize,
        key: Key,
        now: u64,
        delayed: &mut Vec<DelayedAction>,
        cancelled: &mut Vec<DelayedActionId>,
    ) -> (fired: Option<ShortcutAction>)
        requires
            old(self).shape_ok(),
            idx < old(self)@.patterns.len(),
        ensures
            final(self).shape_ok(),
            final(self).order@ == old(self).order@,
            final(self).activation_keys == old(self).activation_keys,
            same_identities(final(self)@.patterns, old(self)@.patterns),
            (Progress {
                matcher: final(self)@,
                delayed: final(delayed)@,
                cancelled: final(cancelled)@,
                fired,
            }) == visit(
                phase,
                Progress {
                    matcher: old(self)@,
                    delayed: old(delayed)@,
                    cancelled: old(cancelled)@,
                    fired: None,
                },
                idx as int,
                key,
                now,
            ),
    {
        let ghost cur = Progress {
            matcher: self@,
            delayed: delayed@,
            cancelled: cancelled@,
            fired: None,
        };
        proof {
            self.lemma_wf();
            self.patterns@[idx as int].lemma_wf();
            assert(cur.matcher.patterns[idx as int] == self.patterns@[idx as int]@);
            crate::patterns::lemma_pattern_steps(cur.matcher.patterns[idx as int], key, now);
            lemma_identities_reflexive(cur.matcher.patterns);
        }
        let is_active = self.active[idx];
        let takes = match phase {
            Phase::Active => is_active,
            Phase::Release => is_active,
            Phase::Candidate => !is_active && self.patterns[idx].get_trigger_key() == key,
        };
        assert(takes == takes_part(phase, cur.matcher, idx as int, key));
        if !takes {
            return None;
        }
        let result = match phase {
            Phase::Release => self.patterns[idx].process_key_release(key, now),
            _ => self.patterns[idx].process_key_press(key, now),
        };
        let ghost answer = match phase {
            Phase::Release => pattern_release(cur.matcher.patterns[idx as int], key, now),
            _ => pattern_press(cur.matcher.patterns[idx as int], key, now),
        };
        let ghost q = with_pattern(cur, idx as int, answer.0);
        proof {
            assert(self@.patterns =~= q.matcher.patterns);
            assert(result@ == answer.1);
            assert(same_identities(self@.patterns, cur.matcher.patterns));
        }
        match result {
            MatchResult::Complete { action } => {
                cancelled.append(&mut self.pending_delayed_ids);
                let ghost mid = self@;
                self.reset_all_patterns();
                delayed.clear();
                proof {
                    assert(mid == (MatcherModel { pending_ids: Seq::empty(), ..q.matcher }));
                    assert(self@ == fire(q, action).matcher);
                    lemma_identities_transitive(self@.patterns, mid.patterns, cur.matcher.patterns);
                }
                Some(action)
            },
            MatchResult::Delayed { action, wait_ms } => {
                match phase {
                    Phase::Release => {},
                    _ => {
                        let id = DelayedActionId(self.next_id);
                        self.next_id = if self.next_id == u64::MAX {
                            0
                        } else {
                            self.next_id + 1
                        };
                        self.pending_delayed_ids.push(id);
                        delayed.push(
                            DelayedAction { id, action, trigger_at: add_saturating(now, wait_ms) },
                        );
                    },
                }
                None
            },
            MatchResult::Partial { next_expected: _ } => {
                match phase {
                    Phase::Candidate => {
                        self.active[idx] = true;
                    },
                    _ => {},
                }
                None
            },
            MatchResult::NoMatch => {
                match phase {
                    Phase::Active => {
                        self.active[idx] = false;
                    },
                    _ => {},
                }
                None
            },
        }
    }

    /// The invariant holds of a matcher that differs from a well-formed one
    /// only in the progress of matches.
    proof fn lemma_wf_from_identities(&self, before: &Self)
        requires
            before.wf(),
            self.shape_ok(),
            self.order@ == before.order@,
            self.activation_keys == before.activation_keys,
            same_identities(self@.patterns, before@.patterns),
        ensures
            self.wf(),
    {
        lemma_order_of_identities(self@.patterns, before@.patterns, self@.patterns.len());
        lemma_trigger_keys_of_identities(self@.patterns, before@.patterns);
    }

    fn cleanup_expired_patterns(&mut self, now: u64)
        requires
            old(self).wf(),
        ensures
            final(self).wf(),
            final(self)@ == expire(old(self)@, now),
            final(self).order@ == old(self).order@,
            same_identities(final(self)@.patterns, old(self)@.patterns),
    {
        let ghost before = self@;
        let n = self.patterns.len();
        let mut i: usize = 0;
        while i < n
            invariant
                n == self.patterns@.len(),
                i <= n,
                all_wf(self.patterns@),
                old(self).shape_ok(),
                before == old(self)@,
                self.active@.len() == n,
                before.patterns.len() == n,
                before.active.len() == n,
                self.order == old(self).order,
                self.activation_keys == old(self).activation_keys,
                self.pending_delayed_ids == old(self).pending_delayed_ids,
                self.next_id == old(self).next_id,
                forall|j: int| 0 <= j < i ==> (#[trigger] self.patterns@[j])@ == expire(before, now).patterns[j],
                forall|j: int| 0 <= j < i ==> (#[trigger] self.active@[j]) == expire(before, now).active[j],
                forall|j: int| i <= j < n ==> (#[trigger] self.patterns@[j])@ == before.patterns[j],
                forall|j: int| i <= j < n ==> (#[trigger] self.active@[j]) == before.active[j],
            decreases n - i,
        {
            if self.active[i] && self.patterns[i].is_expired(now) {
                self.patterns[i].reset();
                self.active[i] = false;
            }
            i += 1;
        }
        proof {
            assert(self@.patterns =~= expire(before, now).patterns);
            assert(self@.active =~= expire(before, now).active);
            lemma_reset_identities(before.patterns, self@.patterns);
            self.lemma_wf_from_identities(old(self));
        }
    }

    fn reset_all_patterns(&mut self)
        requires
            old(self).shape_ok(),
        ensures
            final(self).shape_ok(),
            final(self)@ == reset_active(old(self)@),
            final(self).order@ == old(self).order@,
            final(self).activation_keys == old(self).activation_keys,
            same_identities(final(self)@.patterns, old(self)@.patterns),
    {
        let ghost before = self@;
        let n = self.patterns.len();
        let mut i: usize = 0;
        while i < n
            invariant
                n == self.patterns@.len(),
                i <= n,
                all_wf(self.patterns@),
                old(self).shape_ok(),
                before == old(self)@,
                self.active@.len() == n,
                before.patterns.len() == n,
                before.active.len() == n,
                self.order == old(self).order,
                self.activation_keys == old(self).activation_keys,
                self.pending_delayed_ids == old(self).pending_delayed_ids,
                self.next_id == old(self).next_id,
                forall|j: int| 0 <= j < i ==> (#[trigger] self.patterns@[j])@ == reset_active(before).patterns[j],
                forall|j: int| 0 <= j < i ==> !(#[trigger] self.active@[j]),
                forall|j: int| i <= j < n ==> (#[trigger] self.patterns@[j])@ == before.patterns[j],
                forall|j: int| i <= j < n ==> (#[trigger] self.active@[j]) == before.active[j],
            decreases n - i,
        {
            if self.active[i] {
                self.patterns[i].reset();
                self.active[i] = false;
            }
            i += 1;
        }
        proof {
            assert(self@.patterns =~= reset_active(before).patterns);
            assert(self@.active =~= reset_active(before).active);
            lemma_reset_identities(before.patterns, self@.patterns);
        }
    }

    /// Resets every active pattern; none is active afterwards.
    pub fn reset(&mut self)
        requires
            old(self).wf(),
        ensures
            final(self).wf(),
            final(self)@ == reset_active(old(self)@),
    {
        self.reset_all_patterns();
        proof {
            self.lemma_wf_from_identities(old(self));
        }
    }

    /// The trigger keys while no pattern is active; nothing otherwise.
    pub fn get_expected_keys(&self) -> (keys: KeySet)
        requires
            self.wf(),
        ensures
            keys.wf(),
            keys@ == if any_active(self@.active) {
                Set::<Key>::empty()
            } else {
                trigger_keys(self@.patterns)
            },
    {
        let mut i: usize = 0;
        while i < self.active.len()
            invariant
                i <= self.active@.len(),
                forall|j: int| 0 <= j < i ==> !(#[trigger] self.active@[j]),
            decreases self.active@.len() - i,
        {
            if self.active[i] {
                return KeySet::new();
            }
            i += 1;
        }
        let mut keys = KeySet::new();
        let members = self.activation_keys.to_vec();
        proof {
            self.activation_keys.lemma_elements();
        }
        let mut k: usize = 0;
        while k < members.len()
            invariant
                k <= members@.len(),
                keys.wf(),
                forall|key: Key| keys@.contains(key) <==> members@.take(k as int).contains(key),
            decreases members@.len() - k,
        {
            keys.insert(members[k]);
            proof {
                let before = members@.take(k as int);
                let after = members@.take(k + 1);
                assert(after =~= before.push(members@[k as int]));
                assert forall|key: Key| keys@.contains(key) <==> after.contains(key) by {
                    if before.contains(key) {
                        let j = before.index_of(key);
                        assert(after[j] == key);
                    }
                    if after.contains(key) {
                        let j = after.index_of(key);
                        if j < k {
                            assert(before[j] == key);
                        }
                    }
                    if key == members@[k as int] {
                        assert(after[k as int] == key);
                    }
                }
            }
            k += 1;
        }
        assert(members@.take(k as int) =~= members@);
        assert(keys@ =~= self.activation_keys@);
        keys
    }

    /// Whether a press of `key` can start a pattern.
    pub fn can_activate_fast(&self, key: Key) -> (b: bool)
        requires
            self.wf(),
        ensures
            b == trigger_keys(self@.patterns).contains(key),
    {
        self.activation_keys.contains(key)
    }

    /// Whether an active pattern has a match in progress.
    pub fn has_partial_matches(&self) -> (b: bool)
        requires
            self.wf(),
        ensures
            b == has_partial(self@),
    {
        let mut i: usize = 0;
        while i < self.patterns.len()
            invariant
                i <= self.patterns@.len(),
                self.active@.len() == self.patterns@.len(),
                forall|j: int|
                    0 <= j < i ==> !(self@.active[j] && partial_match(#[trigger] self@.patterns[j])),
            decreases self.patterns@.len() - i,
        {
            assert(self@.patterns[i as int] == self.patterns@[i as int]@);
            if self.active[i] && self.patterns[i].has_partial_match() {
                return true;
            }
            i += 1;
        }
        false
    }
}

/// Every list is the same as itself.
pub proof fn lemma_identities_reflexive(a: Seq<PatternModel>)
    ensures
        same_identities(a, a),
{
}

/// Being the same but for progress carries over.
pub proof fn lemma_identities_transitive(
    a: Seq<PatternModel>,
    b: Seq<PatternModel>,
    c: Seq<PatternModel>,
)
    requires
        same_identities(a, b),
        same_identities(b, c),
    ensures
        same_identities(a, c),
{
    assert forall|i: int| 0 <= i < a.len() implies same_identity(#[trigger] a[i], c[i]) by {
        assert(same_identity(a[i], b[i]));
        assert(same_identity(b[i], c[i]));
    }
}

/// Resetting some patterns of a list keeps their identities.
pub proof fn lemma_reset_identities(before: Seq<PatternModel>, after: Seq<PatternModel>)
    requires
        before.len() == after.len(),
        forall|i: int|
            0 <= i < before.len() ==> (#[trigger] after[i]) == before[i] || after[i]
                == pattern_reset(before[i]),
    ensures
        same_identities(after, before),
{
    assert forall|i: int| 0 <= i < after.len() implies same_identity(
        #[trigger] after[i],
        before[i],
    ) by {
        assert(after[i] == before[i] || after[i] == pattern_reset(before[i]));
    }
}

/// The trigger keys do not depend on the progress of matches.
pub proof fn lemma_trigger_keys_of_identities(a: Seq<PatternModel>, b: Seq<PatternModel>)
    requires
        same_identities(a, b),
    ensures
        trigger_keys(a) == trigger_keys(b),
{
    assert forall|k: Key| trigger_keys(a).contains(k) == trigger_keys(b).contains(k) by {
        if trigger_keys(a).contains(k) {
            let i = choose|i: int| 0 <= i < a.len() && trigger_key(#[trigger] a[i]) == k;
            assert(same_identity(a[i], b[i]));
            assert(trigger_key(b[i]) == k);
        }
        if trigger_keys(b).contains(k) {
            let i = choose|i: int| 0 <= i < b.len() && trigger_key(#[trigger] b[i]) == k;
            assert(same_identity(a[i], b[i]));
            assert(trigger_key(a[i]) == k);
        }
    }
    assert(trigger_keys(a) =~= trigger_keys(b));
}

} // verus!
