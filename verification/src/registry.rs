//! The component registry: who observes the recording lifecycle, how the
//! observers are initialised, and what a broadcast reports.
//!
//! The registry calls hooks one after another. A caller that wants the
//! parallel components side by side gives each of them a task that runs
//! [`initialize_component`], and hands the outcomes to
//! [`ComponentRegistry::initialization_report`].

use crate::component::{
    component_error_text, deliver, method_of, Component, ComponentError, ComponentErrorModel,
    ComponentMetadata, ExecutionMode, LifecycleEvent, MetadataModel, Method,
};
use crate::text::{decimal, decimal_string, prefixed};
use vstd::prelude::*;
use vstd::string::*;

verus! {

/// How the initialisation of one component ended.
#[derive(Debug)]
pub enum InitOutcome {
    Ready,
    /// `preload` failed with this text; `initialize` was not run.
    PreloadFailed(String),
    /// `initialize` failed with this text.
    InitializeFailed(String),
    /// The component's task ended without reporting.
    Panicked,
}

/// The mathematical content of an [`InitOutcome`].
pub enum InitOutcomeModel {
    Ready,
    PreloadFailed(Seq<char>),
    InitializeFailed(Seq<char>),
    Panicked,
}

impl View for InitOutcome {
    type V = InitOutcomeModel;

    open spec fn view(&self) -> InitOutcomeModel {
        match *self {
            InitOutcome::Ready => InitOutcomeModel::Ready,
            InitOutcome::PreloadFailed(m) => InitOutcomeModel::PreloadFailed(m@),
            InitOutcome::InitializeFailed(m) => InitOutcomeModel::InitializeFailed(m@),
            InitOutcome::Panicked => InitOutcomeModel::Panicked,
        }
    }
}

/// One component's failure, by name.
#[derive(Debug)]
pub struct ComponentFailure {
    pub name: String,
    pub message: String,
}

/// The mathematical content of a [`ComponentFailure`].
pub struct FailureModel {
    pub name: Seq<char>,
    pub message: Seq<char>,
}

impl View for ComponentFailure {
    type V = FailureModel;

    open spec fn view(&self) -> FailureModel {
        FailureModel { name: self.name@, message: self.message@ }
    }
}

/// The failures of a list, each by its content.
pub open spec fn failure_views(failures: Seq<ComponentFailure>) -> Seq<FailureModel> {
    Seq::new(failures.len(), |i: int| failures[i]@)
}

/// The outcomes of a list, each by its content.
pub open spec fn outcome_views(outcomes: Seq<InitOutcome>) -> Seq<InitOutcomeModel> {
    Seq::new(outcomes.len(), |i: int| outcomes[i]@)
}

/// The summary error of an initialisation in which something failed.
#[derive(Debug)]
pub struct InitializationFailure {
    /// The failures: parallel components first, then sequential ones, each
    /// group in registration order.
    pub failures: Vec<ComponentFailure>,
    /// The number of registered components.
    pub total: usize,
}

/// The text of the summary: how many of how many failed.
pub open spec fn summary_text(failed: nat, total: nat) -> Seq<char> {
    decimal(failed) + "/"@ + decimal(total) + " components failed to initialize"@
}

impl InitializationFailure {
    /// The summary as a line of text.
    pub fn message(&self) -> (s: String)
        ensures
            s@ == summary_text(self.failures@.len(), self.total as nat),
    {
        let mut s = decimal_string(self.failures.len() as u64);
        s.append("/");
        let total = decimal_string(self.total as u64);
        s.append(total.as_str());
        s.append(" components failed to initialize");
        s
    }
}

/// What `preload` answering `r` means: a failure that ends the
/// initialisation, or nothing yet.
pub fn preload_outcome(r: Result<(), ComponentError>) -> (o: Option<InitOutcome>)
    ensures
        match r {
            Ok(_) => o is None,
            Err(e) => o matches Some(f) && f@ == InitOutcomeModel::PreloadFailed(
                component_error_text(e@),
            ),
        },
{
    match r {
        Ok(_) => None,
        Err(e) => Some(InitOutcome::PreloadFailed(e.message())),
    }
}

/// What `initialize` answering `r` means.
pub fn initialize_outcome(r: Result<(), ComponentError>) -> (o: InitOutcome)
    ensures
        match r {
            Ok(_) => o@ == InitOutcomeModel::Ready,
            Err(e) => o@ == InitOutcomeModel::InitializeFailed(component_error_text(e@)),
        },
{
    match r {
        Ok(_) => InitOutcome::Ready,
        Err(e) => InitOutcome::InitializeFailed(e.message()),
    }
}

/// Whether `outcome` can be how the initialisation of `component` ends: a
/// hook fails only if the component has a body of its own for it, and a
/// component that was run has reported.
pub open spec fn outcome_possible<C: Component>(component: C, outcome: InitOutcomeModel) -> bool {
    match outcome {
        InitOutcomeModel::Ready => true,
        InitOutcomeModel::PreloadFailed(_) => component.replaces(Method::Preload),
        InitOutcomeModel::InitializeFailed(_) => component.replaces(Method::Initialize),
        InitOutcomeModel::Panicked => false,
    }
}

/// Whether `outcomes` can be how the initialisation of `components` ends, one
/// outcome for each component.
pub open spec fn outcomes_possible<C: Component>(
    components: Seq<C>,
    outcomes: Seq<InitOutcomeModel>,
) -> bool {
    &&& outcomes.len() == components.len()
    &&& forall|i: int|
        0 <= i < components.len() ==> outcome_possible(components[i], #[trigger] outcomes[i])
}

/// Whether `r` is the verdict on `outcomes`: success if they hold no failure,
/// else every failure in reporting order with the number of components.
pub open spec fn is_verdict(
    metas: Seq<MetadataModel>,
    outcomes: Seq<InitOutcomeModel>,
    r: Result<(), InitializationFailure>,
) -> bool {
    match r {
        Ok(_) => reported_failures(metas, outcomes).len() == 0,
        Err(e) => {
            &&& failure_views(e.failures@) == reported_failures(metas, outcomes)
            &&& e.failures@.len() > 0
            &&& e.total == metas.len()
        },
    }
}

/// Whether `answers` can be what the hooks of `components` for `method`
/// answer, one answer for each component: a hook fails only if the component
/// has a body of its own for it.
pub open spec fn answers_possible<C: Component>(
    components: Seq<C>,
    method: Method,
    answers: Seq<Option<ComponentErrorModel>>,
) -> bool {
    &&& answers.len() == components.len()
    &&& forall|i: int|
        0 <= i < components.len() && (#[trigger] answers[i]) is Some ==> components[i].replaces(
            method,
        )
}

/// Whether `i` is one of `positions`.
pub open spec fn listed(positions: Seq<usize>, i: int) -> bool {
    exists|k: int| 0 <= k < positions.len() && #[trigger] positions[k] == i
}

/// Whether no component has a body of its own for `method`.
pub open spec fn none_replaces<C: Component>(components: Seq<C>, method: Method) -> bool {
    forall|i: int| 0 <= i < components.len() ==> !(#[trigger] components[i]).replaces(method)
}

/// Runs `preload` and, where that succeeds, `initialize`. The outcome is
/// `Ready` unless one of the two failed, which only a hook of the component's
/// own does.
pub fn initialize_component<C: Component>(component: &C) -> (o: InitOutcome)
    ensures
        outcome_possible(*component, o@),
{
    match preload_outcome(component.preload()) {
        Some(failed) => failed,
        None => initialize_outcome(component.initialize()),
    }
}

/// The failure that an outcome stands for, under the component's name. A task
/// that never reported has no name to give.
pub open spec fn failure_of(meta: MetadataModel, outcome: InitOutcomeModel) -> Option<
    FailureModel,
> {
    match outcome {
        InitOutcomeModel::Ready => None,
        InitOutcomeModel::PreloadFailed(e) => Some(
            FailureModel { name: meta.name, message: "Preload failed: "@ + e },
        ),
        InitOutcomeModel::InitializeFailed(e) => Some(
            FailureModel { name: meta.name, message: "Initialize failed: "@ + e },
        ),
        InitOutcomeModel::Panicked => Some(
            FailureModel { name: "Unknown"@, message: "Thread panicked"@ },
        ),
    }
}

/// The outcome of component `i`; one that is missing counts as a task that
/// never reported.
pub open spec fn outcome_at(outcomes: Seq<InitOutcomeModel>, i: int) -> InitOutcomeModel {
    if 0 <= i < outcomes.len() {
        outcomes[i]
    } else {
        InitOutcomeModel::Panicked
    }
}

/// The failures among the first `n` components that run in `mode`, in
/// registration order.
pub open spec fn failures_in_mode(
    metas: Seq<MetadataModel>,
    outcomes: Seq<InitOutcomeModel>,
    mode: ExecutionMode,
    n: nat,
) -> Seq<FailureModel>
    decreases n,
{
    if n == 0 {
        Seq::empty()
    } else {
        let i = (n - 1) as int;
        let before = failures_in_mode(metas, outcomes, mode, (n - 1) as nat);
        if metas[i].execution_mode == mode {
            match failure_of(metas[i], outcome_at(outcomes, i)) {
                Some(f) => before.push(f),
                None => before,
            }
        } else {
            before
        }
    }
}

/// All failures of an initialisation: parallel components first.
pub open spec fn reported_failures(
    metas: Seq<MetadataModel>,
    outcomes: Seq<InitOutcomeModel>,
) -> Seq<FailureModel> {
    failures_in_mode(metas, outcomes, ExecutionMode::Parallel, metas.len())
        + failures_in_mode(metas, outcomes, ExecutionMode::Sequential, metas.len())
}

/// Outcomes that are all `Ready` hold no failure.
pub proof fn lemma_ready_reports_nothing(
    metas: Seq<MetadataModel>,
    outcomes: Seq<InitOutcomeModel>,
    mode: ExecutionMode,
    n: nat,
)
    requires
        n <= outcomes.len(),
        forall|i: int| 0 <= i < outcomes.len() ==> (#[trigger] outcomes[i]) is Ready,
    ensures
        failures_in_mode(metas, outcomes, mode, n).len() == 0,
    decreases n,
{
    if n > 0 {
        lemma_ready_reports_nothing(metas, outcomes, mode, (n - 1) as nat);
        assert(outcomes[n - 1] is Ready);
    }
}

/// No more failures than components, counted over both modes.
pub proof fn lemma_failures_bounded(
    metas: Seq<MetadataModel>,
    outcomes: Seq<InitOutcomeModel>,
    n: nat,
)
    requires
        n <= metas.len(),
    ensures
        failures_in_mode(metas, outcomes, ExecutionMode::Parallel, n).len() + failures_in_mode(
            metas,
            outcomes,
            ExecutionMode::Sequential,
            n,
        ).len() <= n,
    decreases n,
{
    if n > 0 {
        lemma_failures_bounded(metas, outcomes, (n - 1) as nat);
    }
}

/// What a hook answered: nothing to report, or its error.
pub open spec fn answer_view(answer: Result<(), ComponentError>) -> Option<ComponentErrorModel> {
    match answer {
        Ok(_) => None,
        Err(e) => Some(e@),
    }
}

/// The answers of a list, each by its content.
pub open spec fn answer_views(answers: Seq<Result<(), ComponentError>>) -> Seq<
    Option<ComponentErrorModel>,
> {
    Seq::new(answers.len(), |i: int| answer_view(answers[i]))
}

/// The failures among the answers of the first `n` components, each under
/// the name of its component, in registration order.
pub open spec fn hook_failures(
    metas: Seq<MetadataModel>,
    answers: Seq<Option<ComponentErrorModel>>,
    n: nat,
) -> Seq<FailureModel>
    decreases n,
{
    if n == 0 {
        Seq::empty()
    } else {
        let i = (n - 1) as int;
        let before = hook_failures(metas, answers, (n - 1) as nat);
        if i < answers.len() && answers[i] is Some {
            before.push(
                FailureModel { name: metas[i].name, message: component_error_text(answers[i]->0) },
            )
        } else {
            before
        }
    }
}

/// Answers without an error hold no failure.
pub proof fn lemma_silent_answers(
    metas: Seq<MetadataModel>,
    answers: Seq<Option<ComponentErrorModel>>,
    n: nat,
)
    requires
        forall|i: int| 0 <= i < answers.len() ==> (#[trigger] answers[i]) is None,
    ensures
        hook_failures(metas, answers, n).len() == 0,
    decreases n,
{
    if n > 0 {
        lemma_silent_answers(metas, answers, (n - 1) as nat);
    }
}

/// No more failures than components, each under a registered name.
pub proof fn lemma_hook_failures(
    metas: Seq<MetadataModel>,
    answers: Seq<Option<ComponentErrorModel>>,
    n: nat,
)
    requires
        n <= metas.len(),
    ensures
        hook_failures(metas, answers, n).len() <= n,
        forall|k: int|
            0 <= k < hook_failures(metas, answers, n).len() ==> has_name(
                metas,
                (#[trigger] hook_failures(metas, answers, n)[k]).name,
            ),
    decreases n,
{
    if n > 0 {
        lemma_hook_failures(metas, answers, (n - 1) as nat);
        let before = hook_failures(metas, answers, (n - 1) as nat);
        let all = hook_failures(metas, answers, n);
        assert forall|k: int| 0 <= k < all.len() implies has_name(
            metas,
            (#[trigger] all[k]).name,
        ) by {
            if k < before.len() {
                assert(all[k] == before[k]);
            } else {
                assert(metas[n - 1].name == all[k].name);
            }
        }
    }
}

/// Whether some component of the list carries `tag`.
pub open spec fn has_tag(metas: Seq<MetadataModel>, tag: u64) -> bool {
    exists|i: int| 0 <= i < metas.len() && #[trigger] metas[i].type_id == tag
}

/// Whether no tag occurs twice.
pub open spec fn tags_distinct(metas: Seq<MetadataModel>) -> bool {
    forall|i: int, j: int|
        0 <= i < j < metas.len() ==> #[trigger] metas[i].type_id != #[trigger] metas[j].type_id
}

/// Whether some component of the list goes by `name`.
pub open spec fn has_name(metas: Seq<MetadataModel>, name: Seq<char>) -> bool {
    exists|i: int| 0 <= i < metas.len() && #[trigger] metas[i].name == name
}

/// The error for a tag that is already registered.
pub open spec fn duplicate_text(tag: u64) -> Seq<char> {
    "Component with type "@ + decimal(tag as nat) + " already registered"@
}

/// A registered component with what the registry recorded of it.
pub struct Entry<C> {
    pub metadata: ComponentMetadata,
    pub component: C,
}

/// The registry: components in registration order, each identity tag once.
pub struct ComponentRegistry<C: Component> {
    entries: Vec<Entry<C>>,
}

impl<C: Component> View for ComponentRegistry<C> {
    type V = Seq<MetadataModel>;

    closed spec fn view(&self) -> Seq<MetadataModel> {
        Seq::new(self.entries@.len(), |i: int| self.entries@[i].metadata@)
    }
}

impl<C: Component> ComponentRegistry<C> {
    /// The registered components, in registration order.
    pub closed spec fn components(&self) -> Seq<C> {
        Seq::new(self.entries@.len(), |i: int| self.entries@[i].component)
    }

    /// The invariant: no identity tag is registered twice.
    pub open spec fn wf(&self) -> bool {
        &&& tags_distinct(self@)
        &&& self.components().len() == self@.len()
    }

    /// An empty registry.
    pub fn new() -> (r: Self)
        ensures
            r.wf(),
            r@ == Seq::<MetadataModel>::empty(),
            r.components() == Seq::<C>::empty(),
    {
        let r = ComponentRegistry { entries: Vec::new() };
        assert(r@ =~= Seq::<MetadataModel>::empty());
        assert(r.components() =~= Seq::<C>::empty());
        r
    }

    /// The number of registered components.
    pub fn len(&self) -> (n: usize)
        ensures
            n == self@.len(),
    {
        self.entries.len()
    }

    fn position_of_tag(&self, tag: u64) -> (p: Option<usize>)
        ensures
            match p {
                Some(i) => i < self@.len() && self@[i as int].type_id == tag,
                None => !has_tag(self@, tag),
            },
    {
        let mut i: usize = 0;
        while i < self.entries.len()
            invariant
                i <= self.entries@.len(),
                forall|j: int| 0 <= j < i ==> (#[trigger] self@[j]).type_id != tag,
            decreases self.entries@.len() - i,
        {
            if self.entries[i].metadata.type_id == tag {
                return Some(i);
            }
            i += 1;
        }
        None
    }

    /// Registers `component` under `metadata`, unless the tag is taken.
    pub fn register_with(&mut self, metadata: ComponentMetadata, component: C) -> (r: Result<
        (),
        ComponentError,
    >)
        requires
            old(self).wf(),
        ensures
            final(self).wf(),
            has_tag(old(self)@, metadata.type_id) ==> {
                &&& r matches Err(e)
                &&& e@ == ComponentErrorModel::Generic(duplicate_text(metadata.type_id))
                &&& final(self)@ == old(self)@
                &&& final(self).components() == old(self).components()
            },
            !has_tag(old(self)@, metadata.type_id) ==> {
                &&& r is Ok
                &&& final(self)@ == old(self)@.push(metadata@)
                &&& final(self).components() == old(self).components().push(component)
            },
    {
        match self.position_of_tag(metadata.type_id) {
            Some(_) => {
                let number = decimal_string(metadata.type_id);
                let mut text = prefixed("Component with type ", number.as_str());
                text.append(" already registered");
                Err(ComponentError::Generic(text))
            },
            None => {
                let ghost tag = metadata.type_id;
                let ghost meta = metadata@;
                self.entries.push(Entry { metadata, component });
                assert(self@ =~= old(self)@.push(meta));
                assert(self.components() =~= old(self).components().push(component));
                assert(tags_distinct(self@)) by {
                    assert forall|i: int, j: int| 0 <= i < j < self@.len() implies (
                    #[trigger] self@[i]).type_id != (#[trigger] self@[j]).type_id by {
                        if j < old(self)@.len() {
                            assert(old(self)@[i].type_id != old(self)@[j].type_id);
                        } else {
                            assert(old(self)@[i].type_id != tag);
                        }
                    }
                }
                Ok(())
            },
        }
    }

    /// Registers `component` under the name, tag and mode that it declares.
    ///
    /// The registry records what the component answers at this moment. On
    /// success the registry has grown by this component; on failure it is
    /// unchanged, and a tag that was free cannot fail.
    pub fn register(&mut self, component: C) -> (r: Result<(), ComponentError>)
        requires
            old(self).wf(),
        ensures
            final(self).wf(),
            match r {
                Ok(_) => {
                    &&& final(self)@.len() == old(self)@.len() + 1
                    &&& final(self)@.drop_last() == old(self)@
                    &&& !has_tag(old(self)@, final(self)@.last().type_id)
                    &&& final(self).components() == old(self).components().push(component)
                },
                Err(e) => {
                    &&& final(self)@ == old(self)@
                    &&& final(self).components() == old(self).components()
                    &&& exists|tag: u64|
                        has_tag(old(self)@, tag) && e@ == ComponentErrorModel::Generic(
                            #[trigger] duplicate_text(tag),
                        )
                },
            },
    {
        let metadata = ComponentMetadata::new(component.name(), component.type_id()).with_mode(
            component.execution_mode(),
        );
        let ghost meta = metadata@;
        let r = self.register_with(metadata, component);
        proof {
            if r is Ok {
                assert(self@.drop_last() =~= old(self)@);
            }
        }
        r
    }

    /// The component registered under `tag`.
    pub fn get(&self, tag: u64) -> (c: Option<&C>)
        requires
            self.wf(),
        ensures
            match c {
                Some(c) => exists|i: int|
                    0 <= i < self@.len() && (#[trigger] self@[i]).type_id == tag && *c
                        == self.components()[i],
                None => !has_tag(self@, tag),
            },
    {
        match self.position_of_tag(tag) {
            Some(i) => {
                assert(self.components()[i as int] == self.entries@[i as int].component);
                Some(&self.entries[i].component)
            },
            None => None,
        }
    }

    /// The component at position `i` in registration order.
    pub fn component_at(&self, i: usize) -> (c: Option<&C>)
        ensures
            match c {
                Some(c) => i < self@.len() && *c == self.components()[i as int],
                None => i >= self@.len(),
            },
    {
        if i < self.entries.len() {
            assert(self.components()[i as int] == self.entries@[i as int].component);
            Some(&self.entries[i].component)
        } else {
            None
        }
    }

    /// The component registered last under `name`.
    pub fn get_by_name(&self, name: &str) -> (c: Option<&C>)
        ensures
            match c {
                Some(c) => exists|i: int|
                    0 <= i < self@.len() && (#[trigger] self@[i]).name == name@ && *c
                        == self.components()[i] && forall|j: int|
                        i < j < self@.len() ==> (#[trigger] self@[j]).name != name@,
                None => forall|i: int| 0 <= i < self@.len() ==> (#[trigger] self@[i]).name != name@,
            },
    {
        let wanted = String::from_str(name);
        let mut i: usize = self.entries.len();
        while i > 0
            invariant
                i <= self.entries@.len(),
                wanted@ == name@,
                forall|j: int| i <= j < self@.len() ==> (#[trigger] self@[j]).name != name@,
            decreases i,
        {
            i -= 1;
            if self.entries[i].metadata.name == wanted {
                assert(self.components()[i as int] == self.entries@[i as int].component);
                assert(self@[i as int].name == name@);
                return Some(&self.entries[i].component);
            }
        }
        None
    }

    /// The positions of the components that run in `mode`, ascending.
    pub fn components_in_mode(&self, mode: ExecutionMode) -> (v: Vec<usize>)
        ensures
            forall|k: int| 0 <= k < v@.len() ==> v@[k] < self@.len() && self@[v@[k] as int].execution_mode == mode,
            forall|k: int, l: int| 0 <= k < l < v@.len() ==> v@[k] < v@[l],
            forall|i: int|
                0 <= i < self@.len() && (#[trigger] self@[i]).execution_mode == mode
                    ==> v@.contains(i as usize),
    {
        let mut v: Vec<usize> = Vec::new();
        let mut i: usize = 0;
        while i < self.entries.len()
            invariant
                i <= self.entries@.len(),
                forall|k: int| 0 <= k < v@.len() ==> v@[k] < i && self@[v@[k] as int].execution_mode == mode,
                forall|k: int, l: int| 0 <= k < l < v@.len() ==> v@[k] < v@[l],
                forall|j: int|
                    0 <= j < i && (#[trigger] self@[j]).execution_mode == mode ==> v@.contains(
                        j as usize,
                    ),
            decreases self.entries@.len() - i,
        {
            if self.entries[i].metadata.execution_mode == mode {
                let ghost before = v@;
                v.push(i);
                assert(v@[v@.len() - 1] == i);
                assert forall|j: int|
                    0 <= j < i + 1 && (#[trigger] self@[j]).execution_mode == mode implies v@.contains(
                    j as usize,
                ) by {
                    if j < i {
                        let k = choose|k: int| 0 <= k < before.len() && before[k] == j as usize;
                        assert(v@[k] == j as usize);
                    }
                }
            }
            i += 1;
        }
        v
    }

    /// The verdict on an initialisation, given each component's outcome by
    /// position: success if none failed, else every failure in reporting
    /// order with the number of components.
    pub fn initialization_report(&self, outcomes: &Vec<InitOutcome>) -> (r: Result<
        (),
        InitializationFailure,
    >)
        ensures
            match r {
                Ok(_) => reported_failures(self@, outcome_views(outcomes@)).len() == 0,
                Err(e) => {
                    &&& failure_views(e.failures@) == reported_failures(
                        self@,
                        outcome_views(outcomes@),
                    )
                    &&& e.failures@.len() > 0
                    &&& e.total == self@.len()
                },
            },
    {
        let mut failures: Vec<ComponentFailure> = Vec::new();
        self.collect_failures(outcomes, ExecutionMode::Parallel, &mut failures);
        self.collect_failures(outcomes, ExecutionMode::Sequential, &mut failures);
        if failures.len() == 0 {
            Ok(())
        } else {
            Err(InitializationFailure { failures, total: self.entries.len() })
        }
    }

    fn collect_failures(
        &self,
        outcomes: &Vec<InitOutcome>,
        mode: ExecutionMode,
        failures: &mut Vec<ComponentFailure>,
    )
        ensures
            failure_views(final(failures)@) == failure_views(old(failures)@) + failures_in_mode(
                self@,
                outcome_views(outcomes@),
                mode,
                self@.len(),
            ),
    {
        let ghost start = failure_views(failures@);
        let ghost outs = outcome_views(outcomes@);
        let mut i: usize = 0;
        assert(failure_views(failures@) =~= start + failures_in_mode(self@, outs, mode, 0));
        while i < self.entries.len()
            invariant
                i <= self.entries@.len(),
                outs == outcome_views(outcomes@),
                failure_views(failures@) == start + failures_in_mode(self@, outs, mode, i as nat),
            decreases self.entries@.len() - i,
        {
            let ghost before = failure_views(failures@);
            let entry = &self.entries[i];
            assert(self@[i as int] == entry.metadata@);
            if entry.metadata.execution_mode == mode {
                let failure = if i < outcomes.len() {
                    assert(outs[i as int] == outcomes@[i as int]@);
                    match &outcomes[i] {
                        InitOutcome::Ready => None,
                        InitOutcome::PreloadFailed(e) => Some(
                            ComponentFailure {
                                name: entry.metadata.name.clone(),
                                message: prefixed("Preload failed: ", e.as_str()),
                            },
                        ),
                        InitOutcome::InitializeFailed(e) => Some(
                            ComponentFailure {
                                name: entry.metadata.name.clone(),
                                message: prefixed("Initialize failed: ", e.as_str()),
                            },
                        ),
                        InitOutcome::Panicked => Some(
                            ComponentFailure {
                                name: String::from_str("Unknown"),
                                message: String::from_str("Thread panicked"),
                            },
                        ),
                    }
                } else {
                    Some(
                        ComponentFailure {
                            name: String::from_str("Unknown"),
                            message: String::from_str("Thread panicked"),
                        },
                    )
                };
                match failure {
                    Some(f) => {
                        assert(Some(f@) == failure_of(self@[i as int], outcome_at(outs, i as int)));
                        failures.push(f);
                        assert(failure_views(failures@) =~= before.push(f@));
                    },
                    None => {
                        assert(failure_of(self@[i as int], outcome_at(outs, i as int)) is None);
                    },
                }
            }
            i += 1;
            assert(failure_views(failures@) =~= start + failures_in_mode(
                self@,
                outs,
                mode,
                i as nat,
            ));
        }
    }

    /// Initialises every component, one after another: the parallel ones
    /// first, then the sequential ones, each group in registration order.
    ///
    /// The result is the verdict on the outcomes, one for each component, as
    /// `initialization_report` gives it: success if no hook that ran failed,
    /// else the failures with the number of components. Which outcomes come
    /// is for the hooks to decide; where no component has a `preload` or an
    /// `initialize` of its own, success is owed.
    pub fn initialize_all(&self) -> (r: Result<(), InitializationFailure>)
        ensures
            exists|outcomes: Seq<InitOutcomeModel>|
                outcomes_possible(self.components(), outcomes) && #[trigger] is_verdict(
                    self@,
                    outcomes,
                    r,
                ),
            none_replaces(self.components(), Method::Preload) && none_replaces(
                self.components(),
                Method::Initialize,
            ) ==> r is Ok,
            match r {
                Ok(_) => true,
                Err(e) => 0 < e.failures@.len() <= self@.len() && e.total == self@.len(),
            },
    {
        let n = self.entries.len();
        let mut outcomes: Vec<InitOutcome> = Vec::new();
        let mut i: usize = 0;
        while i < n
            invariant
                n == self.entries@.len(),
                i <= n,
                outcomes@.len() == i,
                forall|j: int| 0 <= j < i ==> (#[trigger] outcomes@[j])@ is Ready,
            decreases n - i,
        {
            outcomes.push(InitOutcome::Ready);
            i += 1;
        }
        let ghost fresh = outcomes@;
        let parallel = self.components_in_mode(ExecutionMode::Parallel);
        self.run_group(&parallel, &mut outcomes);
        let ghost first = outcomes@;
        proof {
            assert forall|j: int| 0 <= j < n implies outcome_possible(
                self.components()[j],
                (#[trigger] first[j])@,
            ) by {
                if !listed(parallel@, j) {
                    assert(first[j] == fresh[j]);
                }
            }
        }
        let sequential = self.components_in_mode(ExecutionMode::Sequential);
        self.run_group(&sequential, &mut outcomes);
        let r = self.initialization_report(&outcomes);
        proof {
            let models = outcome_views(outcomes@);
            assert(outcomes_possible(self.components(), models)) by {
                assert forall|j: int| 0 <= j < n implies outcome_possible(
                    self.components()[j],
                    #[trigger] models[j],
                ) by {
                    if !listed(sequential@, j) {
                        assert(outcomes@[j] == first[j]);
                    }
                }
            }
            assert(is_verdict(self@, models, r));
            lemma_failures_bounded(self@, models, self@.len());
            if r is Err {
                assert(failure_views(r->Err_0.failures@).len() == r->Err_0.failures@.len());
            }
            if none_replaces(self.components(), Method::Preload) && none_replaces(
                self.components(),
                Method::Initialize,
            ) {
                assert forall|j: int| 0 <= j < models.len() implies (#[trigger] models[j]) is Ready by {
                    assert(outcome_possible(self.components()[j], models[j]));
                    assert(!self.components()[j].replaces(Method::Preload));
                    assert(!self.components()[j].replaces(Method::Initialize));
                }
                lemma_ready_reports_nothing(self@, models, ExecutionMode::Parallel, self@.len());
                lemma_ready_reports_nothing(self@, models, ExecutionMode::Sequential, self@.len());
            }
        }
        r
    }

    /// Initialises the components at `positions`, in that order, and puts each
    /// one's outcome at its position. The outcomes at other positions stay.
    fn run_group(&self, positions: &Vec<usize>, outcomes: &mut Vec<InitOutcome>)
        requires
            old(outcomes)@.len() == self@.len(),
            forall|k: int| 0 <= k < positions@.len() ==> positions@[k] < self@.len(),
        ensures
            final(outcomes)@.len() == self@.len(),
            forall|i: int|
                0 <= i < self@.len() && !listed(positions@, i) ==> (#[trigger] final(outcomes)@[i])
                    == old(outcomes)@[i],
            forall|i: int|
                0 <= i < self@.len() && listed(positions@, i) ==> outcome_possible(
                    self.components()[i],
                    (#[trigger] final(outcomes)@[i])@,
                ),
    {
        let mut k: usize = 0;
        while k < positions.len()
            invariant
                k <= positions@.len(),
                outcomes@.len() == self@.len(),
                old(outcomes)@.len() == self@.len(),
                self@.len() == self.entries@.len(),
                forall|k: int| 0 <= k < positions@.len() ==> positions@[k] < self@.len(),
                forall|i: int|
                    0 <= i < self@.len() && !listed(positions@.take(k as int), i) ==> (
                    #[trigger] outcomes@[i]) == old(outcomes)@[i],
                forall|i: int|
                    0 <= i < self@.len() && listed(positions@.take(k as int), i)
                        ==> outcome_possible(self.components()[i], (#[trigger] outcomes@[i])@),
            decreases positions@.len() - k,
        {
            let i = positions[k];
            let ghost before = outcomes@;
            assert(self.components()[i as int] == self.entries@[i as int].component);
            let outcome = initialize_component(&self.entries[i].component);
            outcomes.set(i, outcome);
            proof {
                let seen = positions@.take(k as int);
                let next = positions@.take(k + 1);
                assert(next.len() == k + 1);
                assert(next[k as int] == i);
                assert forall|j: int|
                    0 <= j < self@.len() && !listed(next, j) implies (#[trigger] outcomes@[j])
                    == old(outcomes)@[j] by {
                    if listed(seen, j) {
                        let p = choose|p: int| 0 <= p < seen.len() && seen[p] == j;
                        assert(next[p] == j);
                    }
                    assert(j != i);
                    assert(outcomes@[j] == before[j]);
                }
                assert forall|j: int|
                    0 <= j < self@.len() && listed(next, j) implies outcome_possible(
                    self.components()[j],
                    (#[trigger] outcomes@[j])@,
                ) by {
                    if j != i {
                        let p = choose|p: int| 0 <= p < next.len() && next[p] == j;
                        assert(p < k);
                        assert(seen[p] == j);
                        assert(listed(seen, j));
                        assert(outcomes@[j] == before[j]);
                    }
                }
            }
            k += 1;
        }
        assert(positions@.take(k as int) =~= positions@);
    }

    /// The failures of a broadcast, given what each component's hook answered,
    /// by position: every error under the name of its component, in
    /// registration order. A component without an answer has reported no
    /// failure.
    pub fn lifecycle_failures(&self, outcomes: &Vec<Result<(), ComponentError>>) -> (failures: Vec<
        ComponentFailure,
    >)
        ensures
            failure_views(failures@) == hook_failures(self@, answer_views(outcomes@), self@.len()),
    {
        let ghost answers = answer_views(outcomes@);
        let mut failures: Vec<ComponentFailure> = Vec::new();
        let mut i: usize = 0;
        assert(failure_views(failures@) =~= hook_failures(self@, answers, 0));
        while i < self.entries.len()
            invariant
                i <= self.entries@.len(),
                answers == answer_views(outcomes@),
                failure_views(failures@) == hook_failures(self@, answers, i as nat),
            decreases self.entries@.len() - i,
        {
            let ghost before = failure_views(failures@);
            assert(self@[i as int] == self.entries@[i as int].metadata@);
            if i < outcomes.len() {
                assert(answers[i as int] == answer_view(outcomes@[i as int]));
                if let Err(e) = &outcomes[i] {
                    let f = ComponentFailure {
                        name: self.entries[i].metadata.name.clone(),
                        message: e.message(),
                    };
                    let ghost fv = f@;
                    failures.push(f);
                    assert(failure_views(failures@) =~= before.push(fv));
                }
            }
            i += 1;
        }
        failures
    }

    /// Delivers `event` to every component in registration order and hands
    /// back the failures. A failure stops nothing: every component is called.
    ///
    /// The failures are those of the hooks' answers, one answer for each
    /// component, as `lifecycle_failures` gives them: every error under the
    /// name of its component. Which answers come is for the hooks to decide;
    /// where no component has a hook of its own for the event, nothing fails.
    pub fn broadcast_lifecycle(&self, event: &LifecycleEvent) -> (failures: Vec<ComponentFailure>)
        ensures
            exists|answers: Seq<Option<ComponentErrorModel>>|
                answers_possible(self.components(), method_of(*event), answers) && failure_views(
                    failures@,
                ) == #[trigger] hook_failures(self@, answers, self@.len()),
            none_replaces(self.components(), method_of(*event)) ==> failures@.len() == 0,
            failures@.len() <= self@.len(),
            forall|k: int|
                0 <= k < failures@.len() ==> has_name(self@, (#[trigger] failures@[k]).name@),
    {
        let mut outcomes: Vec<Result<(), ComponentError>> = Vec::new();
        let mut i: usize = 0;
        while i < self.entries.len()
            invariant
                i <= self.entries@.len(),
                outcomes@.len() == i,
                forall|j: int|
                    0 <= j < i && (#[trigger] outcomes@[j]) is Err ==> self.components()[j].replaces(
                        method_of(*event),
                    ),
            decreases self.entries@.len() - i,
        {
            assert(self.components()[i as int] == self.entries@[i as int].component);
            outcomes.push(deliver(&self.entries[i].component, event));
            i += 1;
        }
        let failures = self.lifecycle_failures(&outcomes);
        proof {
            let answers = answer_views(outcomes@);
            assert(answers_possible(self.components(), method_of(*event), answers)) by {
                assert forall|j: int|
                    0 <= j < self.components().len() && (
                    #[trigger] answers[j]) is Some implies self.components()[j].replaces(
                    method_of(*event),
                ) by {
                    assert(answers[j] == answer_view(outcomes@[j]));
                    assert(outcomes@[j] is Err);
                }
            }
            lemma_hook_failures(self@, answers, self@.len());
            let views = failure_views(failures@);
            assert(views.len() == failures@.len());
            assert forall|k: int| 0 <= k < failures@.len() implies has_name(
                self@,
                (#[trigger] failures@[k]).name@,
            ) by {
                assert(views[k].name == failures@[k].name@);
            }
            if none_replaces(self.components(), method_of(*event)) {
                assert forall|j: int| 0 <= j < answers.len() implies (#[trigger] answers[j]) is None by {
                    assert(!self.components()[j].replaces(method_of(*event)));
                }
                lemma_silent_answers(self@, answers, self@.len());
            }
        }
        failures
    }

    /// Tells every component that a recording started. Never fails.
    pub fn notify_start(&self) -> (r: Result<(), ComponentError>)
        ensures
            r is Ok,
    {
        let _ = self.broadcast_lifecycle(&LifecycleEvent::Start);
        Ok(())
    }

    /// Tells every component that the recording stopped. Never fails.
    pub fn notify_stop(&self) -> (r: Result<(), ComponentError>)
        ensures
            r is Ok,
    {
        let _ = self.broadcast_lifecycle(&LifecycleEvent::Stop);
        Ok(())
    }

    /// Tells every component that the recording paused. Never fails.
    pub fn notify_pause(&self) -> (r: Result<(), ComponentError>)
        ensures
            r is Ok,
    {
        let _ = self.broadcast_lifecycle(&LifecycleEvent::Pause);
        Ok(())
    }

    /// Tells every component that the recording resumed. Never fails.
    pub fn notify_resume(&self) -> (r: Result<(), ComponentError>)
        ensures
            r is Ok,
    {
        let _ = self.broadcast_lifecycle(&LifecycleEvent::Resume);
        Ok(())
    }

    /// Tells every component that the recording was cancelled. Never fails.
    pub fn notify_cancel(&self) -> (r: Result<(), ComponentError>)
        ensures
            r is Ok,
    {
        let _ = self.broadcast_lifecycle(&LifecycleEvent::Cancel);
        Ok(())
    }

    /// Tells every component that transcription began. Never fails.
    pub fn notify_processing_start(&self) -> (r: Result<(), ComponentError>)
        ensures
            r is Ok,
    {
        let _ = self.broadcast_lifecycle(&LifecycleEvent::ProcessingStart);
        Ok(())
    }

    /// Hands the transcribed text to every component. Never fails.
    pub fn notify_processing_complete(&self, result: &str) -> (r: Result<(), ComponentError>)
        ensures
            r is Ok,
    {
        let _ = self.broadcast_lifecycle(
            &LifecycleEvent::ProcessingComplete(String::from_str(result)),
        );
        Ok(())
    }

    /// Hands an error text to every component. Never fails.
    pub fn notify_error(&self, error: &str) -> (r: Result<(), ComponentError>)
        ensures
            r is Ok,
    {
        let _ = self.broadcast_lifecycle(&LifecycleEvent::Error(String::from_str(error)));
        Ok(())
    }

    /// Tells every component that a partial transcription began. Never fails.
    pub fn notify_partial_processing_start(&self) -> (r: Result<(), ComponentError>)
        ensures
            r is Ok,
    {
        let _ = self.broadcast_lifecycle(&LifecycleEvent::PartialProcessingStart);
        Ok(())
    }

    /// Hands a partial transcription to every component. Never fails.
    pub fn notify_partial_processing_complete(&self, result: &str) -> (r: Result<
        (),
        ComponentError,
    >)
        ensures
            r is Ok,
    {
        let _ = self.broadcast_lifecycle(
            &LifecycleEvent::PartialProcessingComplete(String::from_str(result)),
        );
        Ok(())
    }
}

/// The error of a registration that failed, under the component's name.
pub open spec fn registration_text(name: Seq<char>, cause: Seq<char>) -> Seq<char> {
    "Component "@ + name + " registration failed: "@ + cause
}

/// Collects components before the registry is put to use.
pub struct RegistryBuilder<C: Component> {
    registry: ComponentRegistry<C>,
}

impl<C: Component> RegistryBuilder<C> {
    /// The registry under construction.
    pub closed spec fn registry(&self) -> ComponentRegistry<C> {
        self.registry
    }

    /// The invariant: that of the registry.
    pub open spec fn wf(&self) -> bool {
        self.registry().wf()
    }

    /// A builder with no component.
    pub fn new() -> (b: Self)
        ensures
            b.wf(),
            b.registry()@ == Seq::<MetadataModel>::empty(),
    {
        RegistryBuilder { registry: ComponentRegistry::new() }
    }

    /// Adds `component`; a failure is reported under the component's name.
    pub fn register_component(self, component: C) -> (r: Result<Self, ComponentError>)
        requires
            self.wf(),
        ensures
            match r {
                Ok(b) => {
                    &&& b.wf()
                    &&& b.registry()@.len() == self.registry()@.len() + 1
                    &&& b.registry()@.drop_last() == self.registry()@
                    &&& b.registry().components() == self.registry().components().push(component)
                },
                Err(e) => exists|tag: u64, name: Seq<char>|
                    has_tag(self.registry()@, tag) && e@ == ComponentErrorModel::Generic(
                        #[trigger] registration_text(
                            name,
                            component_error_text(
                                ComponentErrorModel::Generic(duplicate_text(tag)),
                            ),
                        ),
                    ),
            },
    {
        let mut builder = self;
        let name = String::from_str(component.name());
        match builder.registry.register(component) {
            Ok(_) => Ok(builder),
            Err(e) => {
                let cause = e.message();
                let mut text = prefixed("Component ", name.as_str());
                text.append(" registration failed: ");
                text.append(cause.as_str());
                proof {
                    let tag = choose|tag: u64|
                        has_tag(self.registry()@, tag) && e@ == ComponentErrorModel::Generic(
                            #[trigger] duplicate_text(tag),
                        );
                    assert(text@ == registration_text(
                        name@,
                        component_error_text(ComponentErrorModel::Generic(duplicate_text(tag))),
                    ));
                }
                Err(ComponentError::Generic(text))
            },
        }
    }

    /// Adds `component`; a failure is the registry's own error.
    pub fn with_component(self, component: C) -> (r: Result<Self, ComponentError>)
        requires
            self.wf(),
        ensures
            match r {
                Ok(b) => {
                    &&& b.wf()
                    &&& b.registry()@.len() == self.registry()@.len() + 1
                    &&& b.registry()@.drop_last() == self.registry()@
                    &&& b.registry().components() == self.registry().components().push(component)
                },
                Err(e) => exists|tag: u64|
                    has_tag(self.registry()@, tag) && e@ == ComponentErrorModel::Generic(
                        #[trigger] duplicate_text(tag),
                    ),
            },
    {
        let mut builder = self;
        match builder.registry.register(component) {
            Ok(_) => Ok(builder),
            Err(e) => Err(e),
        }
    }

    /// Adds the components in order; the first failure ends it.
    pub fn with_components(self, components: Vec<C>) -> (r: Result<Self, ComponentError>)
        requires
            self.wf(),
        ensures
            match r {
                Ok(b) => b.wf() && b.registry()@.len() == self.registry()@.len()
                    + components@.len() && b.registry().components() == self.registry().components()
                    + components@,
                Err(e) => exists|tag: u64|
                    e@ == ComponentErrorModel::Generic(#[trigger] duplicate_text(tag)),
            },
    {
        let mut builder = self;
        let mut rest = components;
        let ghost all = rest@;
        let ghost start = builder.registry;
        assert(all.len() == rest.len());
        let mut taken: usize = 0;
        assert(start.components() + all.take(0) =~= start.components());
        while rest.len() > 0
            invariant
                builder.wf(),
                all.len() <= usize::MAX,
                taken + rest@.len() == all.len(),
                rest@ == all.skip(taken as int),
                builder.registry()@.len() == start@.len() + taken,
                builder.registry().components() == start.components() + all.take(taken as int),
            decreases rest@.len(),
        {
            let component = rest.remove(0);
            assert(component == all[taken as int]);
            assert(rest@ =~= all.skip(taken + 1));
            let ghost before = builder.registry().components();
            match builder.registry.register(component) {
                Ok(_) => {},
                Err(e) => {
                    return Err(e);
                },
            }
            assert(before.push(component) =~= start.components() + all.take(taken + 1));
            taken += 1;
        }
        assert(all.take(taken as int) =~= all);
        Ok(builder)
    }

    /// The number of components added.
    pub fn component_count(&self) -> (n: usize)
        ensures
            n == self.registry()@.len(),
    {
        self.registry.len()
    }

    /// Initialises every component and hands out the registry, or the
    /// failures.
    pub fn build(self) -> (r: Result<ComponentRegistry<C>, InitializationFailure>)
        ensures
            match r {
                Ok(registry) => registry == self.registry(),
                Err(e) => 0 < e.failures@.len() <= self.registry()@.len() && e.total
                    == self.registry()@.len(),
            },
    {
        match self.registry.initialize_all() {
            Ok(_) => Ok(self.registry),
            Err(e) => Err(e),
        }
    }

    /// Hands out the registry without initialising anything.
    pub fn build_without_init(self) -> (registry: ComponentRegistry<C>)
        ensures
            registry == self.registry(),
    {
        self.registry
    }
}

} // verus!
