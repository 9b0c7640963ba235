//! What holds of the engine whatever the events.

use crate::conflict_resolver::{
    group_count, group_has, max_double_timeout, resolved, resolved_pattern,
};
use crate::engine::{
    available_actions, build_patterns, by_action, configs_for, engine_step, filter_action,
    filter_available, first_due, in_state, is_available, lemma_first_due, poll_step, read_all,
    take_due, without_cancelled, ConfigModel, EngineModel,
};
use crate::key::Key;
use crate::matcher::{
    begin, comes_before, expire, fresh_matcher, insert_by_priority, lemma_sweep_fired,
    matcher_step, next_id_after, priority_order, sweep, takes_part, visit, with_pattern,
    MatcherModel, Phase, Progress,
};
use crate::parser::{
    combo_of, combos_of, double_of, expand, read_combo, read_pattern, read_patterns, read_pieces,
    single_of,
};
use crate::patterns::combo::ComboModel;
use crate::patterns::double::DoubleTapModel;
use crate::patterns::single::SingleModel;
use crate::patterns::{
    pattern_action, pattern_press, pattern_release, pattern_reset, pattern_timeout, PatternModel,
};
use crate::text::{split, trim};
use crate::types::{
    saturating_sum, ConflictStrategy, DelayedAction, DelayedActionId, KeyEvent, MatchOutcome,
    PatternType, ShortcutAction, ShortcutEngineState,
};
use vstd::prelude::*;

verus! {

/// Whether every pattern stands for an action that can be taken in `state`.
pub open spec fn patterns_allowed(patterns: Seq<PatternModel>, state: ShortcutEngineState) -> bool {
    forall|i: int|
        0 <= i < patterns.len() ==> is_available(state, pattern_action(#[trigger] patterns[i]))
}

/// Whether every queued action can be taken in `state`.
pub open spec fn pending_allowed(pending: Seq<DelayedAction>, state: ShortcutEngineState) -> bool {
    forall|i: int| 0 <= i < pending.len() ==> is_available(state, (#[trigger] pending[i]).action)
}

/// Whether whatever an event has produced so far can be taken in `state`.
pub open spec fn progress_allowed(p: Progress, state: ShortcutEngineState) -> bool {
    &&& patterns_allowed(p.matcher.patterns, state)
    &&& pending_allowed(p.delayed, state)
    &&& p.fired is Some ==> is_available(state, p.fired->0)
}

/// A pattern answers with its own action and keeps it.
pub proof fn lemma_answer_action(m: PatternModel, key: Key, now: u64)
    ensures
        pattern_action(pattern_press(m, key, now).0) == pattern_action(m),
        pattern_action(pattern_release(m, key, now).0) == pattern_action(m),
        pattern_action(pattern_reset(m)) == pattern_action(m),
        pattern_press(m, key, now).1 matches MatchOutcome::Complete { action } ==> action
            == pattern_action(m),
        pattern_press(m, key, now).1 matches MatchOutcome::Delayed { action, .. } ==> action
            == pattern_action(m),
        pattern_release(m, key, now).1 matches MatchOutcome::Complete { action } ==> action
            == pattern_action(m),
        !(pattern_release(m, key, now).1 is Delayed),
{
}

proof fn lemma_visit_allowed(
    phase: Phase,
    p: Progress,
    idx: int,
    key: Key,
    now: u64,
    state: ShortcutEngineState,
)
    requires
        progress_allowed(p, state),
    ensures
        progress_allowed(visit(phase, p, idx, key, now), state),
{
    if p.fired is None && takes_part(phase, p.matcher, idx, key) {
        let m = p.matcher.patterns[idx];
        lemma_answer_action(m, key, now);
        let answer = match phase {
            Phase::Release => pattern_release(m, key, now),
            _ => pattern_press(m, key, now),
        };
        let q = with_pattern(p, idx, answer.0);
        assert(patterns_allowed(q.matcher.patterns, state)) by {
            assert forall|i: int| 0 <= i < q.matcher.patterns.len() implies is_available(
                state,
                pattern_action(#[trigger] q.matcher.patterns[i]),
            ) by {
                if i != idx {
                    assert(q.matcher.patterns[i] == p.matcher.patterns[i]);
                }
            }
        }
        let after = visit(phase, p, idx, key, now);
        assert(patterns_allowed(after.matcher.patterns, state)) by {
            assert forall|i: int| 0 <= i < after.matcher.patterns.len() implies is_available(
                state,
                pattern_action(#[trigger] after.matcher.patterns[i]),
            ) by {
                lemma_answer_action(q.matcher.patterns[i], key, now);
                assert(after.matcher.patterns[i] == q.matcher.patterns[i]
                    || after.matcher.patterns[i] == pattern_reset(q.matcher.patterns[i]));
            }
        }
    }
}

proof fn lemma_sweep_allowed(
    phase: Phase,
    p: Progress,
    order: Seq<usize>,
    k: nat,
    key: Key,
    now: u64,
    state: ShortcutEngineState,
)
    requires
        progress_allowed(p, state),
    ensures
        progress_allowed(sweep(phase, p, order, k, key, now), state),
    decreases k,
{
    if k > 0 {
        lemma_sweep_allowed(phase, p, order, (k - 1) as nat, key, now, state);
        lemma_visit_allowed(
            phase,
            sweep(phase, p, order, (k - 1) as nat, key, now),
            order[k - 1] as int,
            key,
            now,
            state,
        );
    }
}

/// Whatever a matcher produces comes from its patterns: if every pattern
/// stands for an action that can be taken in `state`, so do the completed
/// action, every delayed action scheduled, and every pattern afterwards.
pub proof fn lemma_matcher_allowed(
    m: MatcherModel,
    event: KeyEvent,
    now: u64,
    state: ShortcutEngineState,
)
    requires
        patterns_allowed(m.patterns, state),
    ensures
        progress_allowed(matcher_step(m, event, now), state),
{
    let expired = expire(m, now);
    assert(patterns_allowed(expired.patterns, state)) by {
        assert forall|i: int| 0 <= i < expired.patterns.len() implies is_available(
            state,
            pattern_action(#[trigger] expired.patterns[i]),
        ) by {
            lemma_answer_action(m.patterns[i], Key::Alt, now);
        }
    }
    let order = priority_order(expired.patterns, expired.patterns.len());
    let n = order.len();
    match event {
        KeyEvent::Press(key) => {
            lemma_sweep_allowed(Phase::Active, begin(expired), order, n, key, now, state);
            lemma_sweep_allowed(
                Phase::Candidate,
                sweep(Phase::Active, begin(expired), order, n, key, now),
                order,
                n,
                key,
                now,
                state,
            );
        },
        KeyEvent::Release(key) => {
            lemma_sweep_allowed(Phase::Release, begin(expired), order, n, key, now, state);
        },
    }
}

proof fn lemma_kept_allowed(
    pending: Seq<DelayedAction>,
    cancelled: Seq<DelayedActionId>,
    state: ShortcutEngineState,
)
    requires
        pending_allowed(pending, state),
    ensures
        pending_allowed(without_cancelled(pending, cancelled), state),
    decreases pending.len(),
{
    if pending.len() > 0 {
        assert forall|i: int| 0 <= i < pending.drop_last().len() implies is_available(
            state,
            (#[trigger] pending.drop_last()[i]).action,
        ) by {
            assert(pending.drop_last()[i] == pending[i]);
        }
        lemma_kept_allowed(pending.drop_last(), cancelled, state);
    }
}

proof fn lemma_due_allowed(pending: Seq<DelayedAction>, now: u64, state: ShortcutEngineState)
    requires
        pending_allowed(pending, state),
    ensures
        pending_allowed(take_due(pending, now).0, state),
        take_due(pending, now).1 is Some ==> is_available(state, take_due(pending, now).1->0),
{
    lemma_first_due(pending, now);
    match first_due(pending, now) {
        Some(i) => {
            let rest = pending.remove(i);
            assert forall|j: int| 0 <= j < rest.len() implies is_available(
                state,
                (#[trigger] rest[j]).action,
            ) by {
                if j < i {
                    assert(rest[j] == pending[j]);
                } else {
                    assert(rest[j] == pending[j + 1]);
                }
            }
        },
        None => {},
    }
}

/// State-action consistency, one event: an engine whose patterns and queued
/// actions all stand for actions that can be taken in its state emits only
/// such an action. Whatever a pattern or the queue could not have asked for
/// is never emitted.
pub proof fn lemma_state_action_consistency(e: EngineModel, event: KeyEvent, now: u64)
    requires
        patterns_allowed(e.matcher.patterns, e.state),
        pending_allowed(e.pending, e.state),
    ensures
        engine_step(e, event, now).1 matches Some(action) ==> is_available(e.state, action),
{
    let p = matcher_step(e.matcher, event, now);
    lemma_matcher_allowed(e.matcher, event, now, e.state);
    lemma_kept_allowed(e.pending, p.cancelled, e.state);
    let queue = without_cancelled(e.pending, p.cancelled) + p.delayed;
    assert(pending_allowed(queue, e.state)) by {
        assert forall|i: int| 0 <= i < queue.len() implies is_available(
            e.state,
            (#[trigger] queue[i]).action,
        ) by {
            let kept = without_cancelled(e.pending, p.cancelled);
            if i < kept.len() {
                assert(queue[i] == kept[i]);
            } else {
                assert(queue[i] == p.delayed[i - kept.len()]);
            }
        }
    }
    lemma_due_allowed(queue, now, e.state);
}

/// State-action consistency, polling: a queue of actions that can be taken in
/// the engine's state yields only such an action.
pub proof fn lemma_poll_consistency(e: EngineModel, now: u64)
    requires
        pending_allowed(e.pending, e.state),
    ensures
        poll_step(e, now).1 matches Some(action) ==> is_available(e.state, action),
{
    lemma_due_allowed(e.pending, now, e.state);
}

/// Whether every pattern stands for `action`.
pub open spec fn all_for(patterns: Seq<PatternModel>, action: ShortcutAction) -> bool {
    forall|i: int| 0 <= i < patterns.len() ==> pattern_action(#[trigger] patterns[i]) == action
}

/// Whether every text stands for an action that can be taken in `state`.
pub open spec fn configs_allowed(configs: Seq<ConfigModel>, state: ShortcutEngineState) -> bool {
    forall|i: int| 0 <= i < configs.len() ==> is_available(state, (#[trigger] configs[i]).1)
}

/// The patterns read from a text stand for the action the text was read for.
pub proof fn lemma_read_pattern_action(input: Seq<char>, action: ShortcutAction)
    ensures
        read_pattern(input, action) matches Ok(patterns) ==> all_for(patterns, action),
{
    let text = trim(input);
    match read_combo(text, action) {
        Ok(patterns) => {
            let names = split(text, '+');
            let sequences = expand(text, names, names.len())->Ok_0;
            assert(patterns == combos_of(sequences, action));
        },
        Err(_) => {},
    }
}

proof fn lemma_read_pieces_action(pieces: Seq<Seq<char>>, n: nat, action: ShortcutAction)
    ensures
        read_pieces(pieces, n, action) matches Ok(patterns) ==> all_for(patterns, action),
    decreases n,
{
    if n > 0 {
        lemma_read_pieces_action(pieces, (n - 1) as nat, action);
        lemma_read_pattern_action(trim(pieces[n - 1]), action);
        match read_pieces(pieces, n, action) {
            Ok(patterns) => {
                let before = read_pieces(pieces, (n - 1) as nat, action)->Ok_0;
                assert forall|i: int| 0 <= i < patterns.len() implies pattern_action(
                    #[trigger] patterns[i],
                ) == action by {
                    if i < before.len() {
                        assert(patterns[i] == before[i]);
                    } else {
                        let added = read_pattern(trim(pieces[n - 1]), action)->Ok_0;
                        assert(patterns[i] == added[i - before.len()]);
                    }
                }
            },
            Err(_) => {},
        }
    }
}

proof fn lemma_read_all_allowed(configs: Seq<ConfigModel>, n: nat, state: ShortcutEngineState)
    requires
        configs_allowed(configs, state),
        n <= configs.len(),
    ensures
        patterns_allowed(read_all(configs, n), state),
    decreases n,
{
    if n > 0 {
        lemma_read_all_allowed(configs, (n - 1) as nat, state);
        let text = configs[n - 1].0;
        let action = configs[n - 1].1;
        let pieces = split(text, ';');
        lemma_read_pieces_action(pieces, pieces.len(), action);
        let before = read_all(configs, (n - 1) as nat);
        let all = read_all(configs, n);
        assert forall|i: int| 0 <= i < all.len() implies is_available(
            state,
            pattern_action(#[trigger] all[i]),
        ) by {
            if i < before.len() {
                assert(all[i] == before[i]);
            } else {
                let added = read_patterns(text, action)->Ok_0;
                assert(all[i] == added[i - before.len()]);
                assert(is_available(state, configs[n - 1].1));
            }
        }
    }
}

proof fn lemma_filter_available(configs: Seq<ConfigModel>, state: ShortcutEngineState, n: nat)
    ensures
        configs_allowed(filter_available(configs, state, n), state),
    decreases n,
{
    if n > 0 {
        lemma_filter_available(configs, state, (n - 1) as nat);
        let before = filter_available(configs, state, (n - 1) as nat);
        let all = filter_available(configs, state, n);
        assert forall|i: int| 0 <= i < all.len() implies is_available(
            state,
            (#[trigger] all[i]).1,
        ) by {
            if i < before.len() {
                assert(all[i] == before[i]);
            }
        }
    }
}

proof fn lemma_filter_action(
    configs: Seq<ConfigModel>,
    action: ShortcutAction,
    n: nat,
    state: ShortcutEngineState,
)
    requires
        is_available(state, action),
    ensures
        configs_allowed(filter_action(configs, action, n), state),
    decreases n,
{
    if n > 0 {
        lemma_filter_action(configs, action, (n - 1) as nat, state);
        let before = filter_action(configs, action, (n - 1) as nat);
        let all = filter_action(configs, action, n);
        assert forall|i: int| 0 <= i < all.len() implies is_available(
            state,
            (#[trigger] all[i]).1,
        ) by {
            if i < before.len() {
                assert(all[i] == before[i]);
            }
        }
    }
}

proof fn lemma_by_action(configs: Seq<ConfigModel>, state: ShortcutEngineState, n: nat)
    requires
        n <= available_actions(state).len(),
    ensures
        configs_allowed(by_action(configs, state, n), state),
    decreases n,
{
    if n > 0 {
        lemma_by_action(configs, state, (n - 1) as nat);
        let action = available_actions(state)[n - 1];
        assert(is_available(state, action));
        lemma_filter_action(configs, action, configs.len(), state);
        let before = by_action(configs, state, (n - 1) as nat);
        let added = filter_action(configs, action, configs.len());
        let all = by_action(configs, state, n);
        assert forall|i: int| 0 <= i < all.len() implies is_available(
            state,
            (#[trigger] all[i]).1,
        ) by {
            if i < before.len() {
                assert(all[i] == before[i]);
            } else {
                assert(all[i] == added[i - before.len()]);
            }
        }
    }
}

/// The patterns built for a state stand for actions that can be taken in it.
pub proof fn lemma_rebuilt_allowed(
    configs: Seq<ConfigModel>,
    state: ShortcutEngineState,
    keyed: bool,
    buffer_ms: u64,
)
    ensures
        patterns_allowed(build_patterns(configs_for(configs, state, keyed), buffer_ms), state),
{
    let selected = configs_for(configs, state, keyed);
    if keyed {
        lemma_by_action(configs, state, available_actions(state).len());
    } else {
        lemma_filter_available(configs, state, configs.len());
    }
    lemma_read_all_allowed(selected, selected.len(), state);
    let read = read_all(selected, selected.len());
    let built = build_patterns(selected, buffer_ms);
    assert forall|i: int| 0 <= i < built.len() implies is_available(
        state,
        pattern_action(#[trigger] built[i]),
    ) by {
        assert(built[i] == resolved_pattern(read, buffer_ms, i));
        assert(pattern_action(built[i]) == pattern_action(read[i]));
    }
}

/// State-action consistency, kept: after an event the matcher again holds
/// only patterns for actions that can be taken in the state the engine is
/// then in, provided it did before or the state has changed. From the first
/// change of state on, the patterns alive are those of the current state.
pub proof fn lemma_patterns_follow_state(e: EngineModel, event: KeyEvent, now: u64)
    requires
        patterns_allowed(e.matcher.patterns, e.state) || engine_step(e, event, now).0.state
            != e.state,
    ensures
        patterns_allowed(
            engine_step(e, event, now).0.matcher.patterns,
            engine_step(e, event, now).0.state,
        ),
{
    let after = engine_step(e, event, now).0;
    if after.state != e.state {
        lemma_rebuilt_allowed(e.configs, after.state, e.keyed, e.buffer_ms);
    } else {
        lemma_matcher_allowed(e.matcher, event, now, e.state);
    }
}

/// A change of state leaves exactly the patterns of the new state.
pub proof fn lemma_set_state_allowed(e: EngineModel, state: ShortcutEngineState)
    requires
        e.state != state,
    ensures
        in_state(e, state).matcher.patterns == build_patterns(
            configs_for(e.configs, state, e.keyed),
            e.buffer_ms,
        ),
        patterns_allowed(in_state(e, state).matcher.patterns, state),
{
    lemma_rebuilt_allowed(e.configs, state, e.keyed, e.buffer_ms);
}

/// The patterns of a single key and a double tap on the same key, after
/// resolution: the single key waits out the time limit and the margin.
pub open spec fn single_and_double(
    key: Key,
    timeout_ms: u64,
    single: ShortcutAction,
    double: ShortcutAction,
    buffer_ms: u64,
) -> Seq<PatternModel> {
    resolved(seq![single_of(key, single), double_of(key, timeout_ms, double)], buffer_ms)
}

proof fn lemma_single_and_double(
    key: Key,
    timeout_ms: u64,
    single: ShortcutAction,
    double: ShortcutAction,
    buffer_ms: u64,
)
    ensures
        single_and_double(key, timeout_ms, single, double, buffer_ms) == seq![
            PatternModel::Single(
                SingleModel {
                    key,
                    action: single,
                    conflict_strategy: ConflictStrategy::DelayedFire {
                        delay_ms: saturating_sum(timeout_ms, buffer_ms),
                    },
                    press_time: None,
                },
            ),
            double_of(key, timeout_ms, double),
        ],
{
    let raw = seq![single_of(key, single), double_of(key, timeout_ms, double)];
    reveal_with_fuel(group_count, 3);
    reveal_with_fuel(group_has, 3);
    reveal_with_fuel(max_double_timeout, 3);
    assert(group_count(raw, key, 2) == 2);
    assert(!group_has(raw, key, PatternType::Combo, 2));
    assert(group_has(raw, key, PatternType::DoubleTap, 2));
    assert(max_double_timeout(raw, key, 2) == timeout_ms);
    let out = resolved(raw, buffer_ms);
    assert(out[0] == resolved_pattern(raw, buffer_ms, 0));
    assert(out[1] == resolved_pattern(raw, buffer_ms, 1));
    assert(out =~= seq![out[0], out[1]]);
}

/// Two patterns of which only the second has a time limit are dispatched
/// second first.
proof fn lemma_order_limit_second(patterns: Seq<PatternModel>)
    requires
        patterns.len() == 2,
        pattern_timeout(patterns[0]) is None,
        pattern_timeout(patterns[1]) is Some,
    ensures
        priority_order(patterns, 2) == seq![1usize, 0usize],
{
    reveal_with_fuel(priority_order, 3);
    reveal_with_fuel(insert_by_priority, 3);
    let one = priority_order(patterns, 1);
    assert(one =~= seq![0usize]);
    assert(!comes_before(patterns, 0, 1));
    assert(one.drop_last() =~= Seq::<usize>::empty());
    assert(priority_order(patterns, 2) =~= seq![1usize, 0usize]);
}

/// Two patterns without a time limit are dispatched in their own order.
proof fn lemma_order_no_limits(patterns: Seq<PatternModel>)
    requires
        patterns.len() == 2,
        pattern_timeout(patterns[0]) is None,
        pattern_timeout(patterns[1]) is None,
    ensures
        priority_order(patterns, 2) == seq![0usize, 1usize],
{
    reveal_with_fuel(priority_order, 3);
    reveal_with_fuel(insert_by_priority, 3);
    let one = priority_order(patterns, 1);
    assert(one =~= seq![0usize]);
    assert(comes_before(patterns, 0, 1));
    assert(priority_order(patterns, 2) =~= seq![0usize, 1usize]);
}

/// Nothing expires in a matcher without active patterns.
proof fn lemma_expire_inactive(m: MatcherModel, now: u64)
    requires
        m.active.len() == m.patterns.len(),
        forall|i: int| 0 <= i < m.active.len() ==> !(#[trigger] m.active[i]),
    ensures
        expire(m, now) == m,
{
    assert(expire(m, now).patterns =~= m.patterns);
    assert(expire(m, now).active =~= m.active);
}

/// A pass in which no pattern takes part changes nothing.
proof fn lemma_sweep_idle(phase: Phase, p: Progress, order: Seq<usize>, k: nat, key: Key, now: u64)
    requires
        k <= order.len(),
        forall|j: int| 0 <= j < k ==> !takes_part(phase, p.matcher, (#[trigger] order[j]) as int, key),
    ensures
        sweep(phase, p, order, k, key, now) == p,
    decreases k,
{
    if k > 0 {
        lemma_sweep_idle(phase, p, order, (k - 1) as nat, key, now);
        assert(!takes_part(phase, p.matcher, order[k - 1] as int, key));
    }
}

/// A matcher over a delayed single key and a double tap on the same key.
pub open spec fn single_double_matcher(
    key: Key,
    timeout_ms: u64,
    single: ShortcutAction,
    double: ShortcutAction,
    delay_ms: u64,
    press_time: Option<u64>,
    first_press: Option<u64>,
    pending_ids: Seq<DelayedActionId>,
    next_id: u64,
) -> MatcherModel {
    MatcherModel {
        patterns: seq![
            PatternModel::Single(
                SingleModel {
                    key,
                    action: single,
                    conflict_strategy: ConflictStrategy::DelayedFire { delay_ms },
                    press_time,
                },
            ),
            PatternModel::DoubleTap(
                DoubleTapModel { target_key: key, timeout_ms, action: double, first_press },
            ),
        ],
        active: seq![false, first_press is Some],
        pending_ids,
        next_id,
    }
}

proof fn lemma_first_tap(
    key: Key,
    timeout_ms: u64,
    single: ShortcutAction,
    double: ShortcutAction,
    delay_ms: u64,
    next_id: u64,
    first: u64,
)
    ensures
        matcher_step(
            single_double_matcher(
                key,
                timeout_ms,
                single,
                double,
                delay_ms,
                None,
                None,
                Seq::empty(),
                next_id,
            ),
            KeyEvent::Press(key),
            first,
        ) == (Progress {
            matcher: single_double_matcher(
                key,
                timeout_ms,
                single,
                double,
                delay_ms,
                Some(first),
                Some(first),
                seq![DelayedActionId(next_id)],
                next_id_after(next_id),
            ),
            delayed: seq![
                DelayedAction {
                    id: DelayedActionId(next_id),
                    action: single,
                    trigger_at: saturating_sum(first, delay_ms),
                },
            ],
            cancelled: Seq::empty(),
            fired: None,
        }),
{
    let m0 = single_double_matcher(
        key,
        timeout_ms,
        single,
        double,
        delay_ms,
        None,
        None,
        Seq::empty(),
        next_id,
    );
    let m1 = single_double_matcher(
        key,
        timeout_ms,
        single,
        double,
        delay_ms,
        Some(first),
        Some(first),
        seq![DelayedActionId(next_id)],
        next_id_after(next_id),
    );
    let order = seq![1usize, 0usize];
    lemma_order_limit_second(m0.patterns);
    lemma_expire_inactive(m0, first);
    let start = begin(m0);
    lemma_sweep_idle(Phase::Active, start, order, 2, key, first);
    let after_double = visit(Phase::Candidate, start, 1, key, first);
    assert(after_double.matcher.patterns =~= seq![m0.patterns[0], m1.patterns[1]]);
    assert(after_double.matcher.active =~= seq![false, true]);
    assert(after_double.fired is None);
    let after_single = visit(Phase::Candidate, after_double, 0, key, first);
    assert(after_single.matcher.patterns =~= m1.patterns);
    assert(after_single.matcher.active =~= m1.active);
    assert(after_single.matcher.pending_ids =~= m1.pending_ids);
    assert(after_single.delayed =~= seq![
        DelayedAction {
            id: DelayedActionId(next_id),
            action: single,
            trigger_at: saturating_sum(first, delay_ms),
        },
    ]);
    assert(sweep(Phase::Candidate, start, order, 2, key, first) == after_single) by {
        reveal_with_fuel(sweep, 3);
    }
}

proof fn lemma_second_tap(
    key: Key,
    timeout_ms: u64,
    single: ShortcutAction,
    double: ShortcutAction,
    delay_ms: u64,
    pending_ids: Seq<DelayedActionId>,
    next_id: u64,
    first: u64,
    second: u64,
)
    requires
        first <= second,
        second - first <= timeout_ms,
    ensures
        matcher_step(
            single_double_matcher(
                key,
                timeout_ms,
                single,
                double,
                delay_ms,
                Some(first),
                Some(first),
                pending_ids,
                next_id,
            ),
            KeyEvent::Press(key),
            second,
        ).fired == Some(double),
        matcher_step(
            single_double_matcher(
                key,
                timeout_ms,
                single,
                double,
                delay_ms,
                Some(first),
                Some(first),
                pending_ids,
                next_id,
            ),
            KeyEvent::Press(key),
            second,
        ).cancelled == pending_ids,
        matcher_step(
            single_double_matcher(
                key,
                timeout_ms,
                single,
                double,
                delay_ms,
                Some(first),
                Some(first),
                pending_ids,
                next_id,
            ),
            KeyEvent::Press(key),
            second,
        ).delayed == Seq::<DelayedAction>::empty(),
{
    let m1 = single_double_matcher(
        key,
        timeout_ms,
        single,
        double,
        delay_ms,
        Some(first),
        Some(first),
        pending_ids,
        next_id,
    );
    let order = seq![1usize, 0usize];
    lemma_order_limit_second(m1.patterns);
    let expired = expire(m1, second);
    assert(expired.patterns =~= m1.patterns);
    assert(expired.active =~= m1.active);
    let start = begin(m1);
    let fired = visit(Phase::Active, start, 1, key, second);
    assert(fired.fired == Some(double));
    assert(fired.cancelled =~= pending_ids);
    assert(fired.delayed =~= Seq::<DelayedAction>::empty());
    assert(sweep(Phase::Active, start, order, 2, key, second) == fired) by {
        reveal_with_fuel(sweep, 3);
    }
    lemma_sweep_fired(Phase::Candidate, fired, order, 0, 2, key, second);
}

/// Double-tap priority.
///
/// An engine holds a single-key pattern and a double tap on the same key,
/// with nothing queued. The key is pressed at `first` and again at `second`,
/// within the double tap's time limit. The first press emits nothing: the
/// single key's action is only scheduled. The second press emits the double
/// tap's action, and afterwards the queue is empty, so that no poll, at
/// whatever time, emits the single key's action or anything else.
///
/// The scheduled action must lie in the future at the first press: the time
/// limit and the margin are not both zero, and the clock has not reached its
/// last value.
pub proof fn lemma_double_tap_priority(
    e: EngineModel,
    key: Key,
    timeout_ms: u64,
    single: ShortcutAction,
    double: ShortcutAction,
    first: u64,
    second: u64,
)
    requires
        e.matcher == fresh_matcher(
            single_and_double(key, timeout_ms, single, double, e.buffer_ms),
            e.matcher.next_id,
        ),
        e.pending == Seq::<DelayedAction>::empty(),
        first <= second,
        second - first <= timeout_ms,
        timeout_ms + e.buffer_ms > 0,
        first < u64::MAX,
    ensures
        ({
            let pressed = engine_step(e, KeyEvent::Press(key), first);
            let tapped = engine_step(pressed.0, KeyEvent::Press(key), second);
            &&& pressed.1 is None
            &&& pressed.0.pending.len() == 1
            &&& pressed.0.pending[0].action == single
            &&& tapped.1 == Some(double)
            &&& tapped.0.pending == Seq::<DelayedAction>::empty()
            &&& forall|t: u64| (#[trigger] poll_step(tapped.0, t)).1 is None
        }),
{
    let delay = saturating_sum(timeout_ms, e.buffer_ms);
    let id = DelayedActionId(e.matcher.next_id);
    lemma_single_and_double(key, timeout_ms, single, double, e.buffer_ms);
    let m0 = single_double_matcher(
        key,
        timeout_ms,
        single,
        double,
        delay,
        None,
        None,
        Seq::empty(),
        e.matcher.next_id,
    );
    assert(e.matcher.active =~= m0.active);
    assert(e.matcher == m0);
    lemma_first_tap(key, timeout_ms, single, double, delay, e.matcher.next_id, first);
    let p1 = matcher_step(e.matcher, KeyEvent::Press(key), first);
    let scheduled = DelayedAction { id, action: single, trigger_at: saturating_sum(first, delay) };
    let pressed = engine_step(e, KeyEvent::Press(key), first);
    let queue1 = without_cancelled(e.pending, p1.cancelled) + p1.delayed;
    assert(pressed.1 is None && pressed.0.pending == seq![scheduled] && pressed.0.matcher
        == p1.matcher) by {
        reveal_with_fuel(without_cancelled, 2);
        reveal_with_fuel(first_due, 3);
        assert(queue1 =~= seq![scheduled]);
        assert(scheduled.trigger_at > first);
        assert(queue1.drop_last() =~= Seq::<DelayedAction>::empty());
        assert(first_due(queue1, first) is None);
    }
    lemma_second_tap(
        key,
        timeout_ms,
        single,
        double,
        delay,
        seq![id],
        next_id_after(e.matcher.next_id),
        first,
        second,
    );
    let p2 = matcher_step(pressed.0.matcher, KeyEvent::Press(key), second);
    let tapped = engine_step(pressed.0, KeyEvent::Press(key), second);
    assert(tapped.1 == Some(double) && tapped.0.pending =~= Seq::<DelayedAction>::empty()) by {
        reveal_with_fuel(without_cancelled, 3);
        reveal_with_fuel(first_due, 2);
        assert(p2.cancelled[0] == id);
        assert(p2.cancelled.contains(id));
        assert(seq![scheduled].drop_last() =~= Seq::<DelayedAction>::empty());
        let kept = without_cancelled(pressed.0.pending, p2.cancelled);
        assert(kept =~= Seq::<DelayedAction>::empty());
        assert(kept + p2.delayed =~= Seq::<DelayedAction>::empty());
    }
    assert forall|t: u64| (#[trigger] poll_step(tapped.0, t)).1 is None by {
        reveal_with_fuel(first_due, 2);
        assert(first_due(tapped.0.pending, t) is None);
    }
}

/// The patterns of a single key and a two-key combo that starts with it,
/// after resolution: the single key waits for its release.
pub open spec fn single_and_combo(
    first_key: Key,
    second_key: Key,
    single: ShortcutAction,
    combo: ShortcutAction,
    buffer_ms: u64,
) -> Seq<PatternModel> {
    resolved(
        seq![single_of(first_key, single), combo_of(seq![first_key, second_key], combo)],
        buffer_ms,
    )
}

/// A matcher over a single key that fires on release and a two-key combo that
/// starts with the same key.
pub open spec fn single_combo_matcher(
    first_key: Key,
    second_key: Key,
    single: ShortcutAction,
    combo: ShortcutAction,
    press_time: Option<u64>,
    current_index: nat,
    held: Set<Key>,
    active: Seq<bool>,
    pending_ids: Seq<DelayedActionId>,
    next_id: u64,
) -> MatcherModel {
    MatcherModel {
        patterns: seq![
            PatternModel::Single(
                SingleModel {
                    key: first_key,
                    action: single,
                    conflict_strategy: ConflictStrategy::FireOnRelease,
                    press_time,
                },
            ),
            PatternModel::Combo(
                ComboModel {
                    sequence: seq![first_key, second_key],
                    current_index,
                    held,
                    action: combo,
                },
            ),
        ],
        active,
        pending_ids,
        next_id,
    }
}

/// Whether no pattern of the matcher is active.
pub open spec fn all_inactive(m: MatcherModel) -> bool {
    &&& m.active.len() == m.patterns.len()
    &&& forall|i: int| 0 <= i < m.active.len() ==> !(#[trigger] m.active[i])
}

proof fn lemma_single_and_combo(
    first_key: Key,
    second_key: Key,
    single: ShortcutAction,
    combo: ShortcutAction,
    buffer_ms: u64,
    next_id: u64,
)
    ensures
        fresh_matcher(single_and_combo(first_key, second_key, single, combo, buffer_ms), next_id)
            == single_combo_matcher(
            first_key,
            second_key,
            single,
            combo,
            None,
            0,
            Set::empty(),
            seq![false, false],
            Seq::empty(),
            next_id,
        ),
{
    let raw = seq![single_of(first_key, single), combo_of(seq![first_key, second_key], combo)];
    reveal_with_fuel(group_count, 3);
    reveal_with_fuel(group_has, 3);
    assert(group_count(raw, first_key, 2) == 2);
    assert(group_has(raw, first_key, PatternType::Combo, 2));
    let out = resolved(raw, buffer_ms);
    assert(out[0] == resolved_pattern(raw, buffer_ms, 0));
    assert(out[1] == resolved_pattern(raw, buffer_ms, 1));
    let expected = single_combo_matcher(
        first_key,
        second_key,
        single,
        combo,
        None,
        0,
        Set::empty(),
        seq![false, false],
        Seq::empty(),
        next_id,
    );
    assert(out =~= expected.patterns);
    assert(fresh_matcher(out, next_id).active =~= expected.active);
}

proof fn lemma_combo_first_press(
    first_key: Key,
    second_key: Key,
    single: ShortcutAction,
    combo: ShortcutAction,
    next_id: u64,
    now: u64,
)
    ensures
        matcher_step(
            single_combo_matcher(
                first_key,
                second_key,
                single,
                combo,
                None,
                0,
                Set::empty(),
                seq![false, false],
                Seq::empty(),
                next_id,
            ),
            KeyEvent::Press(first_key),
            now,
        ) == begin(
            single_combo_matcher(
                first_key,
                second_key,
                single,
                combo,
                Some(now),
                1,
                Set::empty().insert(first_key),
                seq![true, true],
                Seq::empty(),
                next_id,
            ),
        ),
{
    let m0 = single_combo_matcher(
        first_key,
        second_key,
        single,
        combo,
        None,
        0,
        Set::empty(),
        seq![false, false],
        Seq::empty(),
        next_id,
    );
    let m1 = single_combo_matcher(
        first_key,
        second_key,
        single,
        combo,
        Some(now),
        1,
        Set::empty().insert(first_key),
        seq![true, true],
        Seq::empty(),
        next_id,
    );
    let order = seq![0usize, 1usize];
    lemma_order_no_limits(m0.patterns);
    lemma_expire_inactive(m0, now);
    let start = begin(m0);
    lemma_sweep_idle(Phase::Active, start, order, 2, first_key, now);
    let after_single = visit(Phase::Candidate, start, 0, first_key, now);
    assert(after_single.matcher.patterns =~= seq![m1.patterns[0], m0.patterns[1]]);
    assert(after_single.matcher.active =~= seq![true, false]);
    assert(after_single.fired is None);
    let after_combo = visit(Phase::Candidate, after_single, 1, first_key, now);
    assert(after_combo.matcher.patterns =~= m1.patterns);
    assert(after_combo.matcher.active =~= m1.active);
    assert(after_combo == begin(m1));
    assert(sweep(Phase::Candidate, start, order, 2, first_key, now) == after_combo) by {
        reveal_with_fuel(sweep, 3);
    }
}

proof fn lemma_combo_second_press(
    first_key: Key,
    second_key: Key,
    single: ShortcutAction,
    combo: ShortcutAction,
    next_id: u64,
    pressed_at: u64,
    now: u64,
)
    requires
        first_key != second_key,
    ensures
        matcher_step(
            single_combo_matcher(
                first_key,
                second_key,
                single,
                combo,
                Some(pressed_at),
                1,
                Set::empty().insert(first_key),
                seq![true, true],
                Seq::empty(),
                next_id,
            ),
            KeyEvent::Press(second_key),
            now,
        ).fired == Some(combo),
        matcher_step(
            single_combo_matcher(
                first_key,
                second_key,
                single,
                combo,
                Some(pressed_at),
                1,
                Set::empty().insert(first_key),
                seq![true, true],
                Seq::empty(),
                next_id,
            ),
            KeyEvent::Press(second_key),
            now,
        ).delayed == Seq::<DelayedAction>::empty(),
        matcher_step(
            single_combo_matcher(
                first_key,
                second_key,
                single,
                combo,
                Some(pressed_at),
                1,
                Set::empty().insert(first_key),
                seq![true, true],
                Seq::empty(),
                next_id,
            ),
            KeyEvent::Press(second_key),
            now,
        ).cancelled == Seq::<DelayedActionId>::empty(),
        all_inactive(
            matcher_step(
                single_combo_matcher(
                    first_key,
                    second_key,
                    single,
                    combo,
                    Some(pressed_at),
                    1,
                    Set::empty().insert(first_key),
                    seq![true, true],
                    Seq::empty(),
                    next_id,
                ),
                KeyEvent::Press(second_key),
                now,
            ).matcher,
        ),
{
    let m1 = single_combo_matcher(
        first_key,
        second_key,
        single,
        combo,
        Some(pressed_at),
        1,
        Set::empty().insert(first_key),
        seq![true, true],
        Seq::empty(),
        next_id,
    );
    let order = seq![0usize, 1usize];
    lemma_order_no_limits(m1.patterns);
    let expired = expire(m1, now);
    assert(expired.patterns =~= m1.patterns);
    assert(expired.active =~= m1.active);
    let start = begin(m1);
    let after_single = visit(Phase::Active, start, 0, second_key, now);
    assert(after_single.matcher.patterns =~= m1.patterns);
    assert(after_single.matcher.active =~= m1.active);
    assert(after_single.fired is None);
    assert(after_single == start);
    let fired = visit(Phase::Active, after_single, 1, second_key, now);
    assert(fired.fired == Some(combo));
    assert(fired.cancelled =~= Seq::<DelayedActionId>::empty());
    assert(all_inactive(fired.matcher));
    assert(sweep(Phase::Active, start, order, 2, second_key, now) == fired) by {
        reveal_with_fuel(sweep, 3);
    }
    lemma_sweep_fired(Phase::Candidate, fired, order, 0, 2, second_key, now);
}

/// A release means nothing to a matcher without active patterns.
pub proof fn lemma_release_idle(m: MatcherModel, key: Key, now: u64)
    requires
        all_inactive(m),
    ensures
        matcher_step(m, KeyEvent::Release(key), now) == begin(m),
{
    lemma_expire_inactive(m, now);
    let order = priority_order(m.patterns, m.patterns.len());
    lemma_sweep_idle(Phase::Release, begin(m), order, order.len(), key, now);
}

/// An engine with nothing queued and no active pattern ignores a release.
proof fn lemma_engine_release_idle(e: EngineModel, key: Key, now: u64)
    requires
        all_inactive(e.matcher),
        e.pending == Seq::<DelayedAction>::empty(),
    ensures
        engine_step(e, KeyEvent::Release(key), now) == (e, None::<ShortcutAction>),
{
    lemma_release_idle(e.matcher, key, now);
    reveal_with_fuel(without_cancelled, 2);
    reveal_with_fuel(first_due, 2);
    let p = matcher_step(e.matcher, KeyEvent::Release(key), now);
    let queue = without_cancelled(e.pending, p.cancelled) + p.delayed;
    assert(queue =~= Seq::<DelayedAction>::empty());
    assert(first_due(queue, now) is None);
}

/// Fire-on-release cancellation.
///
/// An engine holds a single-key pattern and a two-key combo that starts with
/// the same key, with nothing queued. The first key is pressed, then the
/// second; then both are released. The first press emits nothing; the second
/// emits the combo's action; neither release emits anything, and nothing is
/// left in the queue for a later poll. The single key's action is never
/// emitted.
pub proof fn lemma_combo_suppresses_single(
    e: EngineModel,
    first_key: Key,
    second_key: Key,
    single: ShortcutAction,
    combo: ShortcutAction,
    times: Seq<u64>,
)
    requires
        e.matcher == fresh_matcher(
            single_and_combo(first_key, second_key, single, combo, e.buffer_ms),
            e.matcher.next_id,
        ),
        e.pending == Seq::<DelayedAction>::empty(),
        first_key != second_key,
        times.len() == 4,
    ensures
        ({
            let r1 = engine_step(e, KeyEvent::Press(first_key), times[0]);
            let r2 = engine_step(r1.0, KeyEvent::Press(second_key), times[1]);
            let r3 = engine_step(r2.0, KeyEvent::Release(first_key), times[2]);
            let r4 = engine_step(r3.0, KeyEvent::Release(second_key), times[3]);
            &&& r1.1 is None
            &&& r2.1 == Some(combo)
            &&& r3.1 is None
            &&& r4.1 is None
            &&& r4.0.pending == Seq::<DelayedAction>::empty()
            &&& forall|t: u64| (#[trigger] poll_step(r4.0, t)).1 is None
        }),
{
    let next_id = e.matcher.next_id;
    lemma_single_and_combo(first_key, second_key, single, combo, e.buffer_ms, next_id);
    lemma_combo_first_press(first_key, second_key, single, combo, next_id, times[0]);
    let p1 = matcher_step(e.matcher, KeyEvent::Press(first_key), times[0]);
    let r1 = engine_step(e, KeyEvent::Press(first_key), times[0]);
    assert(r1.1 is None && r1.0.pending =~= Seq::<DelayedAction>::empty() && r1.0.matcher
        == p1.matcher) by {
        reveal_with_fuel(without_cancelled, 2);
        reveal_with_fuel(first_due, 2);
        let queue = without_cancelled(e.pending, p1.cancelled) + p1.delayed;
        assert(queue =~= Seq::<DelayedAction>::empty());
        assert(first_due(queue, times[0]) is None);
    }
    lemma_combo_second_press(
        first_key,
        second_key,
        single,
        combo,
        next_id,
        times[0],
        times[1],
    );
    let p2 = matcher_step(r1.0.matcher, KeyEvent::Press(second_key), times[1]);
    let r2 = engine_step(r1.0, KeyEvent::Press(second_key), times[1]);
    assert(r2.1 == Some(combo) && r2.0.pending =~= Seq::<DelayedAction>::empty() && all_inactive(
        r2.0.matcher,
    )) by {
        reveal_with_fuel(without_cancelled, 2);
        reveal_with_fuel(first_due, 2);
        let queue = without_cancelled(r1.0.pending, p2.cancelled) + p2.delayed;
        assert(queue =~= Seq::<DelayedAction>::empty());
        assert(first_due(queue, times[1]) is None);
    }
    lemma_engine_release_idle(r2.0, first_key, times[2]);
    lemma_engine_release_idle(r2.0, second_key, times[3]);
    let r4 = engine_step(r2.0, KeyEvent::Release(second_key), times[3]);
    assert forall|t: u64| (#[trigger] poll_step(r4.0, t)).1 is None by {
        reveal_with_fuel(first_due, 2);
        assert(first_due(r4.0.pending, t) is None);
    }
}

} // verus!
