//! Components: observers of the recording lifecycle.

use crate::audio_error::{error_text, AudioError, AudioErrorModel};
use crate::text::prefixed;
use vstd::prelude::*;
use vstd::string::*;

verus! {

/// Whether a component is initialised side by side with others or in turn.
#[derive(Clone, Copy, Debug, PartialEq, Eq, Structural)]
pub enum ExecutionMode {
    Parallel,
    Sequential,
}

/// What a component's hook reports when it fails.
#[derive(Debug)]
pub enum ComponentError {
    InitializationFailed(String),
    ExecutionFailed(String),
    ConfigurationError(String),
    AudioError(AudioError),
    Generic(String),
}

/// The mathematical content of a [`ComponentError`].
pub enum ComponentErrorModel {
    InitializationFailed(Seq<char>),
    ExecutionFailed(Seq<char>),
    ConfigurationError(Seq<char>),
    AudioError(AudioErrorModel),
    Generic(Seq<char>),
}

impl View for ComponentError {
    type V = ComponentErrorModel;

    open spec fn view(&self) -> ComponentErrorModel {
        match *self {
            ComponentError::InitializationFailed(m) => ComponentErrorModel::InitializationFailed(
                m@,
            ),
            ComponentError::ExecutionFailed(m) => ComponentErrorModel::ExecutionFailed(m@),
            ComponentError::ConfigurationError(m) => ComponentErrorModel::ConfigurationError(m@),
            ComponentError::AudioError(e) => ComponentErrorModel::AudioError(e@),
            ComponentError::Generic(m) => ComponentErrorModel::Generic(m@),
        }
    }
}

/// The text of a component error.
pub open spec fn component_error_text(e: ComponentErrorModel) -> Seq<char> {
    match e {
        ComponentErrorModel::InitializationFailed(m) => "Component initialization failed: "@ + m,
        ComponentErrorModel::ExecutionFailed(m) => "Component execution failed: "@ + m,
        ComponentErrorModel::ConfigurationError(m) => "Component configuration error: "@ + m,
        ComponentErrorModel::AudioError(e) => "Audio error: "@ + error_text(e),
        ComponentErrorModel::Generic(m) => "Generic error: "@ + m,
    }
}

impl ComponentError {
    /// The error as a line of text.
    pub fn message(&self) -> (s: String)
        ensures
            s@ == component_error_text(self@),
    {
        match self {
            ComponentError::InitializationFailed(m) => prefixed(
                "Component initialization failed: ",
                m.as_str(),
            ),
            ComponentError::ExecutionFailed(m) => prefixed(
                "Component execution failed: ",
                m.as_str(),
            ),
            ComponentError::ConfigurationError(m) => prefixed(
                "Component configuration error: ",
                m.as_str(),
            ),
            ComponentError::AudioError(e) => {
                let inner = e.message();
                prefixed("Audio error: ", inner.as_str())
            },
            ComponentError::Generic(m) => prefixed("Generic error: ", m.as_str()),
        }
    }
}

/// The methods of a component that have a default.
#[derive(Clone, Copy, Debug, PartialEq, Eq, Structural)]
pub enum Method {
    ExecutionMode,
    Preload,
    Initialize,
    OnStart,
    OnStop,
    OnPause,
    OnResume,
    OnCancel,
    OnProcessingStart,
    OnProcessingComplete,
    OnError,
    OnPartialProcessingStart,
    OnPartialProcessingComplete,
}

/// An observer of the recording lifecycle.
///
/// A component names itself and its identity tag. Every other method has a
/// default: the default mode is parallel, and the default of a hook does
/// nothing and succeeds. `replaces` says which defaults a component has put
/// a body of its own in place of. Of a method that is replaced nothing is
/// promised: the registry's contracts hold whatever it answers. Of one that
/// is not, the default's answer is.
pub trait Component {
    /// Whether the component has a body of its own for `method`. A component
    /// that does not say is taken to have one for every method.
    open spec fn replaces(&self, method: Method) -> bool {
        true
    }

    /// The name under which the component is found and reported.
    fn name(&self) -> &str;

    /// The component's identity tag; a registry holds each tag once.
    fn type_id(&self) -> u64;

    fn execution_mode(&self) -> (mode: ExecutionMode)
        ensures
            !self.replaces(Method::ExecutionMode) ==> mode == ExecutionMode::Parallel,
    {
        ExecutionMode::Parallel
    }

    fn preload(&self) -> (r: Result<(), ComponentError>)
        ensures
            !self.replaces(Method::Preload) ==> r is Ok,
    {
        Ok(())
    }

    fn initialize(&self) -> (r: Result<(), ComponentError>)
        ensures
            !self.replaces(Method::Initialize) ==> r is Ok,
    {
        Ok(())
    }

    fn on_start(&self) -> (r: Result<(), ComponentError>)
        ensures
            !self.replaces(Method::OnStart) ==> r is Ok,
    {
        Ok(())
    }

    fn on_stop(&self) -> (r: Result<(), ComponentError>)
        ensures
            !self.replaces(Method::OnStop) ==> r is Ok,
    {
        Ok(())
    }

    fn on_pause(&self) -> (r: Result<(), ComponentError>)
        ensures
            !self.replaces(Method::OnPause) ==> r is Ok,
    {
        Ok(())
    }

    fn on_resume(&self) -> (r: Result<(), ComponentError>)
        ensures
            !self.replaces(Method::OnResume) ==> r is Ok,
    {
        Ok(())
    }

    fn on_cancel(&self) -> (r: Result<(), ComponentError>)
        ensures
            !self.replaces(Method::OnCancel) ==> r is Ok,
    {
        Ok(())
    }

    fn on_processing_start(&self) -> (r: Result<(), ComponentError>)
        ensures
            !self.replaces(Method::OnProcessingStart) ==> r is Ok,
    {
        Ok(())
    }

    fn on_processing_complete(&self, _result: &str) -> (r: Result<(), ComponentError>)
        ensures
            !self.replaces(Method::OnProcessingComplete) ==> r is Ok,
    {
        Ok(())
    }

    fn on_error(&self, _error: &str) -> (r: Result<(), ComponentError>)
        ensures
            !self.replaces(Method::OnError) ==> r is Ok,
    {
        Ok(())
    }

    fn on_partial_processing_start(&self) -> (r: Result<(), ComponentError>)
        ensures
            !self.replaces(Method::OnPartialProcessingStart) ==> r is Ok,
    {
        Ok(())
    }

    fn on_partial_processing_complete(&self, _result: &str) -> (r: Result<(), ComponentError>)
        ensures
            !self.replaces(Method::OnPartialProcessingComplete) ==> r is Ok,
    {
        Ok(())
    }
}

/// What a registry records of a component.
#[derive(Debug)]
pub struct ComponentMetadata {
    pub name: String,
    pub type_id: u64,
    pub execution_mode: ExecutionMode,
    pub dependencies: Vec<u64>,
}

/// The mathematical content of a [`ComponentMetadata`].
pub struct MetadataModel {
    pub name: Seq<char>,
    pub type_id: u64,
    pub execution_mode: ExecutionMode,
    pub dependencies: Seq<u64>,
}

impl View for ComponentMetadata {
    type V = MetadataModel;

    open spec fn view(&self) -> MetadataModel {
        MetadataModel {
            name: self.name@,
            type_id: self.type_id,
            execution_mode: self.execution_mode,
            dependencies: self.dependencies@,
        }
    }
}

impl ComponentMetadata {
    /// Metadata for a parallel component without dependencies.
    pub fn new(name: &str, type_id: u64) -> (m: Self)
        ensures
            m@ == (MetadataModel {
                name: name@,
                type_id,
                execution_mode: ExecutionMode::Parallel,
                dependencies: Seq::empty(),
            }),
    {
        ComponentMetadata {
            name: String::from_str(name),
            type_id,
            execution_mode: ExecutionMode::Parallel,
            dependencies: Vec::new(),
        }
    }

    /// The same metadata with another execution mode.
    pub fn with_mode(self, mode: ExecutionMode) -> (m: Self)
        ensures
            m@ == (MetadataModel { execution_mode: mode, ..self@ }),
    {
        let mut m = self;
        m.execution_mode = mode;
        m
    }

    /// The same metadata with these dependencies.
    pub fn with_dependencies(self, deps: Vec<u64>) -> (m: Self)
        ensures
            m@ == (MetadataModel { dependencies: deps@, ..self@ }),
    {
        let mut m = self;
        m.dependencies = deps;
        m
    }
}

/// A lifecycle notification, one per hook.
#[derive(Debug)]
pub enum LifecycleEvent {
    Start,
    Stop,
    Pause,
    Resume,
    Cancel,
    ProcessingStart,
    ProcessingComplete(String),
    Error(String),
    PartialProcessingStart,
    PartialProcessingComplete(String),
}

/// The hook that an event is delivered to.
pub open spec fn method_of(event: LifecycleEvent) -> Method {
    match event {
        LifecycleEvent::Start => Method::OnStart,
        LifecycleEvent::Stop => Method::OnStop,
        LifecycleEvent::Pause => Method::OnPause,
        LifecycleEvent::Resume => Method::OnResume,
        LifecycleEvent::Cancel => Method::OnCancel,
        LifecycleEvent::ProcessingStart => Method::OnProcessingStart,
        LifecycleEvent::ProcessingComplete(_) => Method::OnProcessingComplete,
        LifecycleEvent::Error(_) => Method::OnError,
        LifecycleEvent::PartialProcessingStart => Method::OnPartialProcessingStart,
        LifecycleEvent::PartialProcessingComplete(_) => Method::OnPartialProcessingComplete,
    }
}

/// Calls the hook of `component` that belongs to `event`, with the event's
/// text where it has one, and hands back what the hook answered. A component
/// that has left the hook to its default answers `Ok`.
pub fn deliver<C: Component>(component: &C, event: &LifecycleEvent) -> (r: Result<
    (),
    ComponentError,
>)
    ensures
        !component.replaces(method_of(*event)) ==> r is Ok,
{
    match event {
        LifecycleEvent::Start => component.on_start(),
        LifecycleEvent::Stop => component.on_stop(),
        LifecycleEvent::Pause => component.on_pause(),
        LifecycleEvent::Resume => component.on_resume(),
        LifecycleEvent::Cancel => component.on_cancel(),
        LifecycleEvent::ProcessingStart => component.on_processing_start(),
        LifecycleEvent::ProcessingComplete(text) => component.on_processing_complete(
            text.as_str(),
        ),
        LifecycleEvent::Error(text) => component.on_error(text.as_str()),
        LifecycleEvent::PartialProcessingStart => component.on_partial_processing_start(),
        LifecycleEvent::PartialProcessingComplete(text) => component.on_partial_processing_complete(
            text.as_str(),
        ),
    }
}

} // verus!
