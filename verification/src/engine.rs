//! The matcher engine: a state machine over Idle, Active and Paused that
//! holds the matcher for the current state and the queue of delayed actions.
//!
//! The engine reads no clock. Every function that depends on the time takes
//! `now`, in milliseconds on a monotonic clock.

use crate::config::Config;
use crate::conflict_resolver::{
    all_wf, pattern_views, resolved, ConflictResolver, DEFAULT_BUFFER_MS,
};
use crate::key::Key;
use crate::key_set::KeySet;
use crate::matcher::{
    any_active, fresh_matcher, has_partial, matcher_step, reset_active, trigger_keys,
    MatcherModel, ShortcutMatcher,
};
use crate::parser::{parse_multiple_patterns, read_patterns};
use crate::patterns::{Pattern, PatternModel};
use crate::types::{
    elapsed_millis, millis_since, DelayedAction, DelayedActionId, KeyEvent, ShortcutAction,
    ShortcutEngineState,
};
use vstd::prelude::*;
use vstd::string::*;

verus! {

/// How long the engine may sit without activity before a listener may stop
/// listening closely, in milliseconds.
pub const IDLE_LIMIT_MS: u64 = 2000;

/// A pattern text with the action it stands for.
pub type PatternConfig = (String, ShortcutAction);

/// The content of a pattern text with its action.
pub type ConfigModel = (Seq<char>, ShortcutAction);

/// The contents of a list of pattern texts.
pub open spec fn config_views(configs: Seq<PatternConfig>) -> Seq<ConfigModel> {
    Seq::new(configs.len(), |i: int| (configs[i].0@, configs[i].1))
}

/// The actions that can be taken in `state`, in the order in which their
/// patterns are built.
pub open spec fn available_actions(state: ShortcutEngineState) -> Seq<ShortcutAction> {
    match state {
        ShortcutEngineState::Idle => seq![ShortcutAction::Start],
        ShortcutEngineState::Active => seq![
            ShortcutAction::Stop,
            ShortcutAction::Cancel,
            ShortcutAction::Pause,
        ],
        ShortcutEngineState::Paused => seq![
            ShortcutAction::Pause,
            ShortcutAction::Cancel,
            ShortcutAction::Stop,
        ],
    }
}

/// Whether `action` can be taken in `state`.
pub open spec fn is_available(state: ShortcutEngineState, action: ShortcutAction) -> bool {
    match state {
        ShortcutEngineState::Idle => action == ShortcutAction::Start,
        _ => action != ShortcutAction::Start,
    }
}

/// The state that `action` leads to from `state`.
pub open spec fn next_state(action: ShortcutAction, state: ShortcutEngineState)
    -> ShortcutEngineState {
    match action {
        ShortcutAction::Start => ShortcutEngineState::Active,
        ShortcutAction::Stop => ShortcutEngineState::Idle,
        ShortcutAction::Cancel => ShortcutEngineState::Idle,
        ShortcutAction::Pause => match state {
            ShortcutEngineState::Paused => ShortcutEngineState::Active,
            _ => ShortcutEngineState::Paused,
        },
    }
}

/// The first `n` texts that stand for an action that can be taken in `state`.
pub open spec fn filter_available(configs: Seq<ConfigModel>, state: ShortcutEngineState, n: nat)
    -> Seq<ConfigModel>
    decreases n,
{
    if n == 0 {
        Seq::empty()
    } else {
        let before = filter_available(configs, state, (n - 1) as nat);
        if is_available(state, configs[n - 1].1) {
            before.push(configs[n - 1])
        } else {
            before
        }
    }
}

/// The first `n` texts that stand for `action`.
pub open spec fn filter_action(configs: Seq<ConfigModel>, action: ShortcutAction, n: nat) -> Seq<
    ConfigModel,
>
    decreases n,
{
    if n == 0 {
        Seq::empty()
    } else {
        let before = filter_action(configs, action, (n - 1) as nat);
        if configs[n - 1].1 == action {
            before.push(configs[n - 1])
        } else {
            before
        }
    }
}

/// The texts for the first `n` actions of `state`, action by action.
pub open spec fn by_action(configs: Seq<ConfigModel>, state: ShortcutEngineState, n: nat) -> Seq<
    ConfigModel,
>
    decreases n,
{
    if n == 0 {
        Seq::empty()
    } else {
        by_action(configs, state, (n - 1) as nat) + filter_action(
            configs,
            available_actions(state)[n - 1],
            configs.len(),
        )
    }
}

/// The texts from which the patterns of `state` are built: those whose action
/// can be taken in `state`, in the stored order, or grouped by action where
/// the texts came from a key configuration.
pub open spec fn configs_for(configs: Seq<ConfigModel>, state: ShortcutEngineState, keyed: bool)
    -> Seq<ConfigModel> {
    if keyed {
        by_action(configs, state, available_actions(state).len())
    } else {
        filter_available(configs, state, configs.len())
    }
}

/// The patterns that the first `n` texts write; a text that cannot be read
/// writes none.
pub open spec fn read_all(configs: Seq<ConfigModel>, n: nat) -> Seq<PatternModel>
    decreases n,
{
    if n == 0 {
        Seq::empty()
    } else {
        read_all(configs, (n - 1) as nat) + match read_patterns(configs[n - 1].0, configs[n - 1].1) {
            Ok(patterns) => patterns,
            Err(_) => Seq::empty(),
        }
    }
}

/// The patterns built from the texts: read, then conflicts resolved.
pub open spec fn build_patterns(configs: Seq<ConfigModel>, buffer_ms: u64) -> Seq<PatternModel> {
    resolved(read_all(configs, configs.len()), buffer_ms)
}

/// The queue without the entries whose id was cancelled.
pub open spec fn without_cancelled(pending: Seq<DelayedAction>, cancelled: Seq<DelayedActionId>)
    -> Seq<DelayedAction>
    decreases pending.len(),
{
    if pending.len() == 0 {
        Seq::empty()
    } else {
        let before = without_cancelled(pending.drop_last(), cancelled);
        if cancelled.contains(pending.last().id) {
            before
        } else {
            before.push(pending.last())
        }
    }
}

/// The position of the first entry that is due at `now`, if any is.
pub open spec fn first_due(pending: Seq<DelayedAction>, now: u64) -> Option<int>
    decreases pending.len(),
{
    if pending.len() == 0 {
        None
    } else {
        match first_due(pending.drop_last(), now) {
            Some(i) => Some(i),
            None => if pending.last().trigger_at <= now {
                Some(pending.len() - 1)
            } else {
                None
            },
        }
    }
}

/// The queue and the action after the first due entry, if any, was taken out.
pub open spec fn take_due(pending: Seq<DelayedAction>, now: u64) -> (
    Seq<DelayedAction>,
    Option<ShortcutAction>,
) {
    match first_due(pending, now) {
        Some(i) => (pending.remove(i), Some(pending[i].action)),
        None => (pending, None),
    }
}

/// What the first due entry is.
pub proof fn lemma_first_due(pending: Seq<DelayedAction>, now: u64)
    ensures
        match first_due(pending, now) {
            Some(i) => 0 <= i < pending.len() && pending[i].trigger_at <= now && forall|j: int|
                0 <= j < i ==> (#[trigger] pending[j]).trigger_at > now,
            None => forall|j: int| 0 <= j < pending.len() ==> (#[trigger] pending[j]).trigger_at > now,
        },
    decreases pending.len(),
{
    if pending.len() > 0 {
        lemma_first_due(pending.drop_last(), now);
        match first_due(pending.drop_last(), now) {
            Some(i) => {
                assert(pending.drop_last()[i] == pending[i]);
                assert forall|j: int| 0 <= j < i implies (#[trigger] pending[j]).trigger_at > now by {
                    assert(pending.drop_last()[j] == pending[j]);
                }
            },
            None => {
                assert forall|j: int| 0 <= j < pending.len() - 1 implies (
                #[trigger] pending[j]).trigger_at > now by {
                    assert(pending.drop_last()[j] == pending[j]);
                }
            },
        }
    }
}

/// The mathematical content of a [`MatcherEngine`].
pub struct EngineModel {
    pub matcher: MatcherModel,
    pub state: ShortcutEngineState,
    pub buffer_ms: u64,
    /// The delayed actions that wait for their time, oldest first.
    pub pending: Seq<DelayedAction>,
    pub listening: bool,
    pub last_activity: u64,
    /// The pattern texts from which the matcher is rebuilt.
    pub configs: Seq<ConfigModel>,
    /// Whether the texts came from a key configuration.
    pub keyed: bool,
}

/// The engine in `state`: unchanged if it is there already, else with a fresh
/// matcher over the patterns of `state`, which goes on numbering delayed
/// actions where the old one stopped.
pub open spec fn in_state(e: EngineModel, state: ShortcutEngineState) -> EngineModel {
    if e.state == state {
        e
    } else {
        EngineModel {
            state,
            matcher: fresh_matcher(
                build_patterns(configs_for(e.configs, state, e.keyed), e.buffer_ms),
                e.matcher.next_id,
            ),
            ..e
        }
    }
}

/// The engine after taking out the first due entry and, if there was one,
/// moving to the state its action leads to.
pub open spec fn poll_step(e: EngineModel, now: u64) -> (EngineModel, Option<ShortcutAction>) {
    let due = take_due(e.pending, now);
    let polled = EngineModel { pending: due.0, ..e };
    match due.1 {
        Some(action) => (in_state(polled, next_state(action, e.state)), Some(action)),
        None => (polled, None),
    }
}

/// The engine and the action after one key event at `now`.
///
/// The matcher takes the event. Cancelled ids leave the queue and newly
/// scheduled actions join it; then the first due entry is taken out. The
/// action is the one a pattern completed, else the one that was due. An
/// action moves the engine to its next state. An event that both completed a
/// pattern and scheduled something is dropped.
pub open spec fn engine_step(e: EngineModel, event: KeyEvent, now: u64) -> (
    EngineModel,
    Option<ShortcutAction>,
) {
    let p = matcher_step(e.matcher, event, now);
    let matched = EngineModel { matcher: p.matcher, ..e };
    if p.fired is Some && p.delayed.len() > 0 {
        (matched, None)
    } else {
        let due = take_due(without_cancelled(e.pending, p.cancelled) + p.delayed, now);
        let queued = EngineModel { pending: due.0, ..matched };
        let action = if p.fired is Some {
            p.fired
        } else {
            due.1
        };
        match action {
            Some(a) => (in_state(queued, next_state(a, e.state)), Some(a)),
            None => (queued, None),
        }
    }
}

/// The engine.
pub struct MatcherEngine {
    matcher: ShortcutMatcher,
    pub current_state: ShortcutEngineState,
    buffer_ms: u64,
    pending_delayed: Vec<DelayedAction>,
    is_actively_listening: bool,
    last_activity: u64,
    pattern_configs: Vec<PatternConfig>,
    keyed: bool,
}

impl View for MatcherEngine {
    type V = EngineModel;

    closed spec fn view(&self) -> EngineModel {
        EngineModel {
            matcher: self.matcher@,
            state: self.current_state,
            buffer_ms: self.buffer_ms,
            pending: self.pending_delayed@,
            listening: self.is_actively_listening,
            last_activity: self.last_activity,
            configs: config_views(self.pattern_configs@),
            keyed: self.keyed,
        }
    }
}

/// Whether `action` can be taken in `state`.
pub fn action_available(state: ShortcutEngineState, action: ShortcutAction) -> (b: bool)
    ensures
        b == is_available(state, action),
{
    match state {
        ShortcutEngineState::Idle => action == ShortcutAction::Start,
        _ => action != ShortcutAction::Start,
    }
}

fn copy_string(s: &String) -> (c: String)
    ensures
        c@ == s@,
{
    s.clone()
}

fn select_available(configs: &Vec<PatternConfig>, state: ShortcutEngineState) -> (out: Vec<
    PatternConfig,
>)
    ensures
        config_views(out@) == filter_available(config_views(configs@), state, configs@.len()),
{
    let ghost all = config_views(configs@);
    let mut out: Vec<PatternConfig> = Vec::new();
    let mut i: usize = 0;
    assert(config_views(out@) =~= filter_available(all, state, 0));
    while i < configs.len()
        invariant
            i <= configs@.len(),
            all == config_views(configs@),
            config_views(out@) == filter_available(all, state, i as nat),
        decreases configs@.len() - i,
    {
        let ghost before = config_views(out@);
        if action_available(state, configs[i].1) {
            out.push((copy_string(&configs[i].0), configs[i].1));
            assert(config_views(out@) =~= before.push(all[i as int]));
        }
        i += 1;
    }
    out
}

fn select_action(configs: &Vec<PatternConfig>, action: ShortcutAction, out: &mut Vec<PatternConfig>)
    ensures
        config_views(final(out)@) == config_views(old(out)@) + filter_action(
            config_views(configs@),
            action,
            configs@.len(),
        ),
{
    let ghost all = config_views(configs@);
    let ghost start = config_views(out@);
    let mut i: usize = 0;
    assert(config_views(out@) =~= start + filter_action(all, action, 0));
    while i < configs.len()
        invariant
            i <= configs@.len(),
            all == config_views(configs@),
            config_views(out@) == start + filter_action(all, action, i as nat),
        decreases configs@.len() - i,
    {
        let ghost before = config_views(out@);
        if configs[i].1 == action {
            out.push((copy_string(&configs[i].0), configs[i].1));
            assert(config_views(out@) =~= before.push(all[i as int]));
        }
        i += 1;
        assert(config_views(out@) =~= start + filter_action(all, action, i as nat));
    }
}

fn select_for(configs: &Vec<PatternConfig>, state: ShortcutEngineState, keyed: bool) -> (out: Vec<
    PatternConfig,
>)
    ensures
        config_views(out@) == configs_for(config_views(configs@), state, keyed),
{
    if !keyed {
        return select_available(configs, state);
    }
    let ghost all = config_views(configs@);
    let mut out: Vec<PatternConfig> = Vec::new();
    assert(config_views(out@) =~= by_action(all, state, 0));
    match state {
        ShortcutEngineState::Idle => {
            select_action(configs, ShortcutAction::Start, &mut out);
            assert(config_views(out@) =~= by_action(all, state, 1)) by {
                reveal_with_fuel(by_action, 2);
            }
        },
        ShortcutEngineState::Active => {
            select_action(configs, ShortcutAction::Stop, &mut out);
            select_action(configs, ShortcutAction::Cancel, &mut out);
            select_action(configs, ShortcutAction::Pause, &mut out);
            assert(config_views(out@) =~= by_action(all, state, 3)) by {
                reveal_with_fuel(by_action, 4);
            }
        },
        ShortcutEngineState::Paused => {
            select_action(configs, ShortcutAction::Pause, &mut out);
            select_action(configs, ShortcutAction::Cancel, &mut out);
            select_action(configs, ShortcutAction::Stop, &mut out);
            assert(config_views(out@) =~= by_action(all, state, 3)) by {
                reveal_with_fuel(by_action, 4);
            }
        },
    }
    out
}

fn drop_cancelled(pending: &Vec<DelayedAction>, cancelled: &Vec<DelayedActionId>) -> (kept: Vec<
    DelayedAction,
>)
    ensures
        kept@ == without_cancelled(pending@, cancelled@),
{
    let mut kept: Vec<DelayedAction> = Vec::new();
    let mut i: usize = 0;
    assert(pending@.take(0) =~= Seq::<DelayedAction>::empty());
    while i < pending.len()
        invariant
            i <= pending@.len(),
            kept@ == without_cancelled(pending@.take(i as int), cancelled@),
        decreases pending@.len() - i,
    {
        proof {
            assert(pending@.take(i + 1).drop_last() =~= pending@.take(i as int));
            assert(pending@.take(i + 1).last() == pending@[i as int]);
        }
        let id = pending[i].id;
        let mut found = false;
        let mut j: usize = 0;
        while j < cancelled.len() && !found
            invariant
                j <= cancelled@.len(),
                found ==> cancelled@.contains(id),
                !found ==> forall|k: int| 0 <= k < j ==> cancelled@[k] != id,
            decreases cancelled@.len() - j,
        {
            if cancelled[j] == id {
                found = true;
            }
            j += 1;
        }
        if !found {
            kept.push(pending[i]);
        }
        i += 1;
    }
    assert(pending@.take(i as int) =~= pending@);
    kept
}

impl MatcherEngine {
    /// The invariant: that of the matcher.
    pub closed spec fn wf(&self) -> bool {
        self.matcher.wf()
    }

    /// Reads every text and resolves the conflicts among the patterns. A text
    /// that cannot be read contributes nothing.
    fn parse_patterns_internal(configs: &Vec<PatternConfig>, resolver: &ConflictResolver) -> (patterns:
        Vec<Pattern>)
        ensures
            all_wf(patterns@),
            pattern_views(patterns@) == build_patterns(
                config_views(configs@),
                resolver.spec_buffer_ms(),
            ),
    {
        let ghost all = config_views(configs@);
        let mut patterns: Vec<Pattern> = Vec::new();
        let mut i: usize = 0;
        assert(pattern_views(patterns@) =~= read_all(all, 0));
        while i < configs.len()
            invariant
                i <= configs@.len(),
                all == config_views(configs@),
                all_wf(patterns@),
                pattern_views(patterns@) == read_all(all, i as nat),
            decreases configs@.len() - i,
        {
            let ghost before = pattern_views(patterns@);
            assert(all[i as int] == (configs@[i as int].0@, configs@[i as int].1));
            match parse_multiple_patterns(configs[i].0.as_str(), configs[i].1) {
                Ok(mut parsed) => {
                    let ghost added = pattern_views(parsed@);
                    let ghost old_patterns = patterns@;
                    let ghost old_parsed = parsed@;
                    patterns.append(&mut parsed);
                    assert(pattern_views(patterns@) =~= before + added);
                    assert(all_wf(patterns@)) by {
                        assert forall|k: int| 0 <= k < patterns@.len() implies (
                        #[trigger] patterns@[k]).wf() by {
                            if k < old_patterns.len() {
                                assert(patterns@[k] == old_patterns[k]);
                            } else {
                                assert(patterns@[k] == old_parsed[k - old_patterns.len()]);
                            }
                        }
                    }
                },
                Err(_) => {
                    assert(before + Seq::<PatternModel>::empty() =~= before);
                },
            }
            i += 1;
        }
        resolver.analyze_and_mark_conflicts(&mut patterns);
        patterns
    }

    /// An idle engine over the given pattern texts, with every text's
    /// patterns in the matcher whatever its action. A margin of `None` means
    /// the default.
    pub fn new_with_patterns(buffer_ms: Option<u64>, pattern_configs: Vec<(&str, ShortcutAction)>)
        -> (e: Self)
        ensures
            e.wf(),
            e@.state == ShortcutEngineState::Idle,
            e@.buffer_ms == match buffer_ms {
                Some(b) => b,
                None => DEFAULT_BUFFER_MS,
            },
            e@.configs == Seq::new(
                pattern_configs@.len(),
                |i: int| (pattern_configs@[i].0@, pattern_configs@[i].1),
            ),
            !e@.keyed,
            e@.matcher == fresh_matcher(build_patterns(e@.configs, e@.buffer_ms), 0),
            e@.pending == Seq::<DelayedAction>::empty(),
            !e@.listening,
            e@.last_activity == 0,
    {
        let buffer_ms = match buffer_ms {
            Some(b) => b,
            None => DEFAULT_BUFFER_MS,
        };
        let mut stored: Vec<PatternConfig> = Vec::new();
        let mut i: usize = 0;
        while i < pattern_configs.len()
            invariant
                i <= pattern_configs@.len(),
                stored@.len() == i,
                forall|j: int|
                    0 <= j < i ==> (#[trigger] stored@[j]).0@ == pattern_configs@[j].0@
                        && stored@[j].1 == pattern_configs@[j].1,
            decreases pattern_configs@.len() - i,
        {
            stored.push((String::from_str(pattern_configs[i].0), pattern_configs[i].1));
            i += 1;
        }
        assert(config_views(stored@) =~= Seq::new(
            pattern_configs@.len(),
            |i: int| (pattern_configs@[i].0@, pattern_configs@[i].1),
        ));
        Self::assemble(buffer_ms, stored, false, false)
    }

    /// An idle engine over the texts of a key configuration: `start_keys` for
    /// Start, and so on. The matcher holds the patterns of the idle state.
    pub fn from_keys(
        buffer_ms: Option<u64>,
        start_keys: &Vec<String>,
        stop_keys: &Vec<String>,
        cancel_keys: &Vec<String>,
        pause_keys: &Vec<String>,
    ) -> (e: Self)
        ensures
            e.wf(),
            e@.state == ShortcutEngineState::Idle,
            e@.buffer_ms == match buffer_ms {
                Some(b) => b,
                None => DEFAULT_BUFFER_MS,
            },
            e@.configs == keyed_configs(start_keys@, stop_keys@, cancel_keys@, pause_keys@),
            e@.keyed,
            e@.matcher == fresh_matcher(
                build_patterns(
                    configs_for(e@.configs, ShortcutEngineState::Idle, true),
                    e@.buffer_ms,
                ),
                0,
            ),
            e@.pending == Seq::<DelayedAction>::empty(),
            !e@.listening,
            e@.last_activity == 0,
    {
        let buffer_ms = match buffer_ms {
            Some(b) => b,
            None => DEFAULT_BUFFER_MS,
        };
        let mut stored: Vec<PatternConfig> = Vec::new();
        assert(config_views(stored@) =~= Seq::<ConfigModel>::empty());
        push_keys(&mut stored, start_keys, ShortcutAction::Start);
        push_keys(&mut stored, stop_keys, ShortcutAction::Stop);
        push_keys(&mut stored, cancel_keys, ShortcutAction::Cancel);
        push_keys(&mut stored, pause_keys, ShortcutAction::Pause);
        assert(config_views(stored@) =~= keyed_configs(
            start_keys@,
            stop_keys@,
            cancel_keys@,
            pause_keys@,
        ));
        Self::assemble(buffer_ms, stored, true, true)
    }

    /// An idle engine over the shortcut keys and the margin of `config`.
    pub fn from_config(config: &Config) -> (e: Self)
        ensures
            e.wf(),
            e@.state == ShortcutEngineState::Idle,
            e@.buffer_ms == match config.shortcut_resolution_delay_ms {
                Some(b) => b,
                None => DEFAULT_BUFFER_MS,
            },
            e@.configs == keyed_configs(
                config.start_keys@,
                config.stop_keys@,
                config.cancel_keys@,
                config.pause_keys@,
            ),
            e@.keyed,
            e@.matcher == fresh_matcher(
                build_patterns(
                    configs_for(e@.configs, ShortcutEngineState::Idle, true),
                    e@.buffer_ms,
                ),
                0,
            ),
            e@.pending == Seq::<DelayedAction>::empty(),
    {
        Self::from_keys(
            config.shortcut_resolution_delay_ms,
            &config.start_keys,
            &config.stop_keys,
            &config.cancel_keys,
            &config.pause_keys,
        )
    }

    fn assemble(buffer_ms: u64, stored: Vec<PatternConfig>, keyed: bool, filtered: bool) -> (e: Self)
        ensures
            e.wf(),
            e@.state == ShortcutEngineState::Idle,
            e@.buffer_ms == buffer_ms,
            e@.configs == config_views(stored@),
            e@.keyed == keyed,
            e@.matcher == fresh_matcher(
                build_patterns(
                    if filtered {
                        configs_for(config_views(stored@), ShortcutEngineState::Idle, keyed)
                    } else {
                        config_views(stored@)
                    },
                    buffer_ms,
                ),
                0,
            ),
            e@.pending == Seq::<DelayedAction>::empty(),
            !e@.listening,
            e@.last_activity == 0,
    {
        let resolver = ConflictResolver::new(buffer_ms);
        let patterns = if filtered {
            let selected = select_for(&stored, ShortcutEngineState::Idle, keyed);
            Self::parse_patterns_internal(&selected, &resolver)
        } else {
            Self::parse_patterns_internal(&stored, &resolver)
        };
        MatcherEngine {
            matcher: ShortcutMatcher::new(patterns),
            current_state: ShortcutEngineState::Idle,
            buffer_ms,
            pending_delayed: Vec::new(),
            is_actively_listening: false,
            last_activity: 0,
            pattern_configs: stored,
            keyed,
        }
    }

    /// The state the engine is in.
    pub fn state(&self) -> (s: ShortcutEngineState)
        ensures
            s == self@.state,
    {
        self.current_state
    }

    /// The number of delayed actions that wait for their time.
    pub fn pending_count(&self) -> (n: usize)
        ensures
            n == self@.pending.len(),
    {
        self.pending_delayed.len()
    }

    /// The actions that can be taken in `state`.
    pub fn get_available_actions(state: ShortcutEngineState) -> (actions: Vec<ShortcutAction>)
        ensures
            actions@ == available_actions(state),
    {
        let mut actions: Vec<ShortcutAction> = Vec::new();
        match state {
            ShortcutEngineState::Idle => {
                actions.push(ShortcutAction::Start);
            },
            ShortcutEngineState::Active => {
                actions.push(ShortcutAction::Stop);
                actions.push(ShortcutAction::Cancel);
                actions.push(ShortcutAction::Pause);
            },
            ShortcutEngineState::Paused => {
                actions.push(ShortcutAction::Pause);
                actions.push(ShortcutAction::Cancel);
                actions.push(ShortcutAction::Stop);
            },
        }
        assert(actions@ =~= available_actions(state));
        actions
    }

    /// The state that `action` leads to from `current_state`.
    pub fn determine_next_state(action: ShortcutAction, current_state: ShortcutEngineState) -> (s:
        ShortcutEngineState)
        ensures
            s == next_state(action, current_state),
    {
        match action {
            ShortcutAction::Start => ShortcutEngineState::Active,
            ShortcutAction::Stop => ShortcutEngineState::Idle,
            ShortcutAction::Cancel => ShortcutEngineState::Idle,
            ShortcutAction::Pause => match current_state {
                ShortcutEngineState::Paused => ShortcutEngineState::Active,
                _ => ShortcutEngineState::Paused,
            },
        }
    }

    /// Moves the engine to `state`. A change of state replaces the matcher by
    /// a fresh one over the patterns of the new state; the queue of delayed
    /// actions stays.
    pub fn set_state(&mut self, state: ShortcutEngineState)
        requires
            old(self).wf(),
        ensures
            final(self).wf(),
            final(self)@ == in_state(old(self)@, state),
    {
        if self.current_state != state {
            self.current_state = state;
            let selected = select_for(&self.pattern_configs, state, self.keyed);
            let resolver = ConflictResolver::new(self.buffer_ms);
            let patterns = Self::parse_patterns_internal(&selected, &resolver);
            let first_id = self.matcher.next_id();
            self.matcher = ShortcutMatcher::with_first_id(patterns, first_id);
        }
    }

    /// Takes one key event at time `now` and hands back the action that it
    /// brought about, if any.
    pub fn process_event_with_time(&mut self, event: KeyEvent, now: u64) -> (action: Option<
        ShortcutAction,
    >)
        requires
            old(self).wf(),
        ensures
            final(self).wf(),
            final(self)@ == engine_step(old(self)@, event, now).0,
            action == engine_step(old(self)@, event, now).1,
    {
        let out = self.matcher.process_event(event, now);
        if out.action.is_some() && out.delayed.len() > 0 {
            return None;
        }
        let mut delayed = out.delayed;
        let mut queue = drop_cancelled(&self.pending_delayed, &out.cancelled);
        queue.append(&mut delayed);
        self.pending_delayed = queue;
        let triggered = self.check_and_trigger_delayed(now);
        let action = match out.action {
            Some(a) => Some(a),
            None => triggered,
        };
        if let Some(a) = action {
            let new_state = Self::determine_next_state(a, self.current_state);
            self.set_state(new_state);
        }
        action
    }

    fn check_and_trigger_delayed(&mut self, now: u64) -> (action: Option<ShortcutAction>)
        requires
            old(self).wf(),
        ensures
            final(self).wf(),
            final(self)@ == (EngineModel {
                pending: take_due(old(self)@.pending, now).0,
                ..old(self)@
            }),
            action == take_due(old(self)@.pending, now).1,
    {
        let mut i: usize = 0;
        assert(self.pending_delayed@.take(0) =~= Seq::<DelayedAction>::empty());
        while i < self.pending_delayed.len()
            invariant
                old(self).wf(),
                i <= self.pending_delayed@.len(),
                self.pending_delayed == old(self).pending_delayed,
                self.matcher == old(self).matcher,
                self@ == old(self)@,
                first_due(self.pending_delayed@.take(i as int), now) is None,
            decreases self.pending_delayed@.len() - i,
        {
            proof {
                let pending = self.pending_delayed@;
                assert(pending.take(i + 1).drop_last() =~= pending.take(i as int));
                assert(pending.take(i + 1).last() == pending[i as int]);
            }
            if self.pending_delayed[i].trigger_at <= now {
                proof {
                    let pending = self.pending_delayed@;
                    assert(first_due(pending.take(i + 1), now) == Some(i as int));
                    lemma_first_due_prefix(pending, now, (i + 1) as int);
                }
                let due = self.pending_delayed.remove(i);
                return Some(due.action);
            }
            i += 1;
        }
        proof {
            let pending = self.pending_delayed@;
            assert(pending.take(i as int) =~= pending);
        }
        None
    }

    /// Takes out the first delayed action that is due at `now`, if any, and
    /// moves to the state it leads to.
    pub fn poll_delayed_action(&mut self, now: u64) -> (action: Option<ShortcutAction>)
        requires
            old(self).wf(),
        ensures
            final(self).wf(),
            final(self)@ == poll_step(old(self)@, now).0,
            action == poll_step(old(self)@, now).1,
    {
        let action = self.check_and_trigger_delayed(now);
        if let Some(a) = action {
            let new_state = Self::determine_next_state(a, self.current_state);
            self.set_state(new_state);
        }
        action
    }

    /// The same as `poll_delayed_action`, with the action dropped.
    pub fn check_delayed_actions(&mut self, now: u64)
        requires
            old(self).wf(),
        ensures
            final(self).wf(),
            final(self)@ == poll_step(old(self)@, now).0,
    {
        let _ = self.poll_delayed_action(now);
    }

    /// The trigger keys while no pattern is active; nothing otherwise.
    pub fn get_expected_keys(&self) -> (keys: KeySet)
        requires
            self.wf(),
        ensures
            keys.wf(),
            keys@ == if any_active(self@.matcher.active) {
                Set::<Key>::empty()
            } else {
                trigger_keys(self@.matcher.patterns)
            },
    {
        self.matcher.get_expected_keys()
    }

    /// Resets every active pattern.
    pub fn reset(&mut self)
        requires
            old(self).wf(),
        ensures
            final(self).wf(),
            final(self)@ == (EngineModel {
                matcher: reset_active(old(self)@.matcher),
                ..old(self)@
            }),
    {
        self.matcher.reset();
    }

    /// Whether a listener that idles should wake for this event: only for the
    /// press of a key that starts a pattern.
    pub fn should_activate(&self, key: Key, is_press: bool) -> (b: bool)
        requires
            self.wf(),
        ensures
            b == (is_press && trigger_keys(self@.matcher.patterns).contains(key)),
    {
        if !is_press {
            return false;
        }
        self.matcher.can_activate_fast(key)
    }

    pub fn is_actively_listening(&self) -> (b: bool)
        ensures
            b == self@.listening,
    {
        self.is_actively_listening
    }

    /// Marks the engine as listening closely and notes `now` as the time of
    /// the last activity.
    pub fn activate(&mut self, now: u64)
        ensures
            final(self)@ == (EngineModel { listening: true, last_activity: now, ..old(self)@ }),
            final(self).wf() == old(self).wf(),
    {
        self.is_actively_listening = true;
        self.update_activity(now);
    }

    /// Marks the engine as idling and resets every active pattern.
    pub fn deactivate(&mut self)
        requires
            old(self).wf(),
        ensures
            final(self).wf(),
            final(self)@ == (EngineModel {
                listening: false,
                matcher: reset_active(old(self)@.matcher),
                ..old(self)@
            }),
    {
        self.is_actively_listening = false;
        self.matcher.reset();
    }

    /// Whether a listener may stop listening closely: no active pattern has a
    /// match in progress and the last activity is longer ago than the limit.
    pub fn should_deactivate(&self, now: u64) -> (b: bool)
        requires
            self.wf(),
        ensures
            b == (!has_partial(self@.matcher) && millis_since(now, self@.last_activity)
                > IDLE_LIMIT_MS),
    {
        if self.matcher.has_partial_matches() {
            return false;
        }
        elapsed_millis(now, self.last_activity) > IDLE_LIMIT_MS
    }

    /// Notes `now` as the time of the last activity.
    pub fn update_activity(&mut self, now: u64)
        ensures
            final(self)@ == (EngineModel { last_activity: now, ..old(self)@ }),
            final(self).wf() == old(self).wf(),
    {
        self.last_activity = now;
    }
}

/// The texts of a key configuration with their actions: start keys first,
/// then stop, cancel and pause keys.
pub open spec fn keyed_configs(
    start_keys: Seq<String>,
    stop_keys: Seq<String>,
    cancel_keys: Seq<String>,
    pause_keys: Seq<String>,
) -> Seq<ConfigModel> {
    keys_with(start_keys, ShortcutAction::Start) + keys_with(stop_keys, ShortcutAction::Stop)
        + keys_with(cancel_keys, ShortcutAction::Cancel) + keys_with(
        pause_keys,
        ShortcutAction::Pause,
    )
}

/// Each text with `action`.
pub open spec fn keys_with(keys: Seq<String>, action: ShortcutAction) -> Seq<ConfigModel> {
    Seq::new(keys.len(), |i: int| (keys[i]@, action))
}

fn push_keys(stored: &mut Vec<PatternConfig>, keys: &Vec<String>, action: ShortcutAction)
    ensures
        config_views(final(stored)@) == config_views(old(stored)@) + keys_with(keys@, action),
{
    let ghost start = config_views(stored@);
    let mut i: usize = 0;
    assert(config_views(stored@) =~= start + keys_with(keys@, action).take(0));
    while i < keys.len()
        invariant
            i <= keys@.len(),
            config_views(stored@) == start + keys_with(keys@, action).take(i as int),
        decreases keys@.len() - i,
    {
        let ghost before = config_views(stored@);
        stored.push((copy_string(&keys[i]), action));
        assert(config_views(stored@) =~= before.push((keys@[i as int]@, action)));
        assert(keys_with(keys@, action).take(i + 1) =~= keys_with(keys@, action).take(
            i as int,
        ).push((keys@[i as int]@, action)));
        i += 1;
    }
    assert(keys_with(keys@, action).take(i as int) =~= keys_with(keys@, action));
}

/// A due entry found in a prefix of the queue is the first due entry of the
/// queue.
pub proof fn lemma_first_due_prefix(pending: Seq<DelayedAction>, now: u64, n: int)
    requires
        0 <= n <= pending.len(),
        first_due(pending.take(n), now) is Some,
    ensures
        first_due(pending, now) == first_due(pending.take(n), now),
    decreases pending.len() - n,
{
    if n == pending.len() {
        assert(pending.take(n) =~= pending);
    } else {
        assert(pending.drop_last().take(n) =~= pending.take(n));
        lemma_first_due_prefix(pending.drop_last(), now, n);
    }
}

} // verus!
