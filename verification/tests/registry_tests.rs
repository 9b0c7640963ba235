use para_speak::component::{deliver, Component, ComponentError, ComponentMetadata, ExecutionMode, LifecycleEvent};
use para_speak::registry::{
    initialize_component, initialize_outcome, preload_outcome, ComponentRegistry, InitOutcome,
    RegistryBuilder,
};
use std::cell::RefCell;
use std::rc::Rc;

#[derive(Clone, Debug)]
struct Probe {
    name: String,
    tag: u64,
    mode: ExecutionMode,
    fail_preload: bool,
    fail_initialize: bool,
    fail_start: bool,
    log: Rc<RefCell<Vec<String>>>,
}

impl Probe {
    fn new(name: &str, tag: u64, log: &Rc<RefCell<Vec<String>>>) -> Self {
        Probe {
            name: name.to_string(),
            tag,
            mode: ExecutionMode::Parallel,
            fail_preload: false,
            fail_initialize: false,
            fail_start: false,
            log: log.clone(),
        }
    }

    fn note(&self, what: &str) {
        self.log.borrow_mut().push(format!("{}:{}", self.name, what));
    }
}

impl Component for Probe {
    fn name(&self) -> &str {
        &self.name
    }

    fn type_id(&self) -> u64 {
        self.tag
    }

    fn execution_mode(&self) -> ExecutionMode {
        self.mode
    }

    fn preload(&self) -> Result<(), ComponentError> {
        self.note("preload");
        if self.fail_preload {
            Err(ComponentError::InitializationFailed("no sounds".to_string()))
        } else {
            Ok(())
        }
    }

    fn initialize(&self) -> Result<(), ComponentError> {
        self.note("initialize");
        if self.fail_initialize {
            Err(ComponentError::Generic("no device".to_string()))
        } else {
            Ok(())
        }
    }

    fn on_start(&self) -> Result<(), ComponentError> {
        self.note("start");
        if self.fail_start {
            Err(ComponentError::ExecutionFailed("muted".to_string()))
        } else {
            Ok(())
        }
    }

    fn on_processing_complete(&self, result: &str) -> Result<(), ComponentError> {
        self.note(&format!("text={}", result));
        Ok(())
    }
}

fn log() -> Rc<RefCell<Vec<String>>> {
    Rc::new(RefCell::new(Vec::new()))
}

#[test]
fn a_tag_is_registered_once() {
    let log = log();
    let mut registry = ComponentRegistry::new();
    assert!(registry.register(Probe::new("a", 1, &log)).is_ok());
    assert!(registry.register(Probe::new("b", 2, &log)).is_ok());
    let again = registry.register(Probe::new("c", 1, &log)).unwrap_err();
    assert_eq!(again.message(), "Generic error: Component with type 1 already registered");
    assert_eq!(registry.len(), 2);
    assert_eq!(registry.get(2).unwrap().name, "b");
    assert_eq!(registry.get(1).unwrap().name, "a");
    assert!(registry.get(3).is_none());
    assert_eq!(registry.get_by_name("b").unwrap().tag, 2);
    assert!(registry.get_by_name("c").is_none());
}

#[test]
fn a_name_finds_the_component_registered_last() {
    let log = log();
    let mut registry = ComponentRegistry::new();
    registry.register(Probe::new("same", 1, &log)).unwrap();
    registry.register(Probe::new("same", 2, &log)).unwrap();
    assert_eq!(registry.get_by_name("same").unwrap().tag, 2);
}

#[test]
fn registering_with_metadata_goes_by_the_metadata() {
    let log = log();
    let mut registry = ComponentRegistry::new();
    let meta = ComponentMetadata::new("alias", 77)
        .with_mode(ExecutionMode::Sequential)
        .with_dependencies(vec![1, 2]);
    assert_eq!(meta.name, "alias");
    assert_eq!(meta.type_id, 77);
    assert_eq!(meta.execution_mode, ExecutionMode::Sequential);
    assert_eq!(meta.dependencies, vec![1, 2]);
    registry.register_with(meta, Probe::new("real", 5, &log)).unwrap();
    assert_eq!(registry.get(77).unwrap().name, "real");
    assert!(registry.get(5).is_none());
    assert!(registry.get_by_name("alias").is_some());
    assert_eq!(registry.components_in_mode(ExecutionMode::Sequential), vec![0]);
    assert!(ComponentMetadata::new("x", 0).dependencies.is_empty());
    assert_eq!(ComponentMetadata::new("x", 0).execution_mode, ExecutionMode::Parallel);
}

#[test]
fn initialisation_runs_parallel_components_first() {
    let log = log();
    let mut registry = ComponentRegistry::new();
    let mut seq = Probe::new("seq", 1, &log);
    seq.mode = ExecutionMode::Sequential;
    registry.register(seq).unwrap();
    registry.register(Probe::new("par", 2, &log)).unwrap();
    assert!(registry.initialize_all().is_ok());
    assert_eq!(
        *log.borrow(),
        vec!["par:preload", "par:initialize", "seq:preload", "seq:initialize"]
    );
    assert_eq!(registry.components_in_mode(ExecutionMode::Parallel), vec![1]);
    assert_eq!(registry.components_in_mode(ExecutionMode::Sequential), vec![0]);
}

#[test]
fn failures_are_collected_and_summarised() {
    let log = log();
    let mut registry = ComponentRegistry::new();
    let mut seq = Probe::new("seq", 1, &log);
    seq.mode = ExecutionMode::Sequential;
    seq.fail_initialize = true;
    let mut par = Probe::new("par", 2, &log);
    par.fail_preload = true;
    registry.register(seq).unwrap();
    registry.register(Probe::new("fine", 3, &log)).unwrap();
    registry.register(par).unwrap();
    let failure = registry.initialize_all().unwrap_err();
    assert_eq!(failure.total, 3);
    assert_eq!(failure.message(), "2/3 components failed to initialize");
    assert_eq!(failure.failures.len(), 2);
    assert_eq!(failure.failures[0].name, "par");
    assert_eq!(
        failure.failures[0].message,
        "Preload failed: Component initialization failed: no sounds"
    );
    assert_eq!(failure.failures[1].name, "seq");
    assert_eq!(failure.failures[1].message, "Initialize failed: Generic error: no device");
    // a failed preload skips initialize; the others still ran
    assert_eq!(
        *log.borrow(),
        vec!["fine:preload", "fine:initialize", "par:preload", "seq:preload", "seq:initialize"]
    );
}

#[test]
fn a_report_is_made_from_outcomes() {
    let log = log();
    let mut registry = ComponentRegistry::new();
    registry.register(Probe::new("a", 1, &log)).unwrap();
    registry.register(Probe::new("b", 2, &log)).unwrap();
    registry.register(Probe::new("c", 3, &log)).unwrap();
    assert!(registry
        .initialization_report(&vec![InitOutcome::Ready, InitOutcome::Ready, InitOutcome::Ready])
        .is_ok());
    let failure = registry
        .initialization_report(&vec![
            InitOutcome::Panicked,
            InitOutcome::Ready,
        ])
        .unwrap_err();
    assert_eq!(failure.message(), "2/3 components failed to initialize");
    assert_eq!(failure.failures[0].name, "Unknown");
    assert_eq!(failure.failures[0].message, "Thread panicked");
    assert_eq!(failure.failures[1].name, "Unknown");
    let failure = registry
        .initialization_report(&vec![
            InitOutcome::Ready,
            InitOutcome::InitializeFailed("x".to_string()),
            InitOutcome::PreloadFailed("y".to_string()),
        ])
        .unwrap_err();
    assert_eq!(failure.failures[0].name, "b");
    assert_eq!(failure.failures[0].message, "Initialize failed: x");
    assert_eq!(failure.failures[1].name, "c");
    assert_eq!(failure.failures[1].message, "Preload failed: y");
}

#[test]
fn one_components_failure_does_not_stop_a_broadcast() {
    let log = log();
    let mut registry = ComponentRegistry::new();
    let mut deaf = Probe::new("deaf", 1, &log);
    deaf.fail_start = true;
    registry.register(deaf).unwrap();
    registry.register(Probe::new("ok", 2, &log)).unwrap();
    let failures = registry.broadcast_lifecycle(&LifecycleEvent::Start);
    assert_eq!(failures.len(), 1);
    assert_eq!(failures[0].name, "deaf");
    assert_eq!(failures[0].message, "Component execution failed: muted");
    assert_eq!(*log.borrow(), vec!["deaf:start", "ok:start"]);
    assert!(registry.notify_start().is_ok());
    assert!(registry.notify_stop().is_ok());
    assert!(registry.notify_pause().is_ok());
    assert!(registry.notify_resume().is_ok());
    assert!(registry.notify_cancel().is_ok());
    assert!(registry.notify_processing_start().is_ok());
    assert!(registry.notify_error("bad").is_ok());
    assert!(registry.notify_partial_processing_start().is_ok());
    assert!(registry.notify_partial_processing_complete("par").is_ok());
    log.borrow_mut().clear();
    assert!(registry.notify_processing_complete("hello").is_ok());
    assert_eq!(*log.borrow(), vec!["deaf:text=hello", "ok:text=hello"]);
}

#[test]
fn outcomes_follow_the_hooks() {
    let log = log();
    let mut p = Probe::new("p", 1, &log);
    assert!(matches!(initialize_component(&p), InitOutcome::Ready));
    p.fail_initialize = true;
    match initialize_component(&p) {
        InitOutcome::InitializeFailed(text) => assert_eq!(text, "Generic error: no device"),
        other => panic!("unexpected {:?}", other),
    }
    p.fail_preload = true;
    match initialize_component(&p) {
        InitOutcome::PreloadFailed(text) => {
            assert_eq!(text, "Component initialization failed: no sounds")
        }
        other => panic!("unexpected {:?}", other),
    }
    assert!(preload_outcome(Ok(())).is_none());
    assert!(matches!(initialize_outcome(Ok(())), InitOutcome::Ready));
    assert!(deliver(&p, &LifecycleEvent::Stop).is_ok());
    assert_eq!(
        ComponentError::ConfigurationError("c".into()).message(),
        "Component configuration error: c"
    );
    assert_eq!(
        ComponentError::AudioError(para_speak::AudioError::NotPaused).message(),
        "Audio error: Recording not paused"
    );
}

#[test]
fn the_builder_collects_and_builds() {
    let log = log();
    let builder = RegistryBuilder::new()
        .register_component(Probe::new("a", 1, &log))
        .unwrap()
        .with_component(Probe::new("b", 2, &log))
        .unwrap()
        .with_components(vec![Probe::new("c", 3, &log), Probe::new("d", 4, &log)])
        .unwrap();
    assert_eq!(builder.component_count(), 4);
    let registry = builder.build().unwrap();
    assert_eq!(registry.len(), 4);
    assert_eq!(log.borrow().len(), 8);

    let duplicate = RegistryBuilder::new()
        .register_component(Probe::new("a", 1, &log))
        .unwrap()
        .register_component(Probe::new("twin", 1, &log));
    match duplicate {
        Err(e) => assert_eq!(
            e.message(),
            "Generic error: Component twin registration failed: Generic error: Component with type 1 already registered"
        ),
        Ok(_) => panic!("a duplicate tag was accepted"),
    }

    let mut bad = Probe::new("bad", 9, &log);
    bad.fail_preload = true;
    let failed = RegistryBuilder::new().with_component(bad.clone()).unwrap().build();
    match failed {
        Err(e) => assert_eq!(e.message(), "1/1 components failed to initialize"),
        Ok(_) => panic!("a failed preload went unnoticed"),
    }
    let unbuilt = RegistryBuilder::new().with_component(bad).unwrap().build_without_init();
    assert_eq!(unbuilt.len(), 1);
}

#[test]
fn broadcast_failures_are_named_by_position() {
    let log = log();
    let mut registry = ComponentRegistry::new();
    registry.register(Probe::new("a", 1, &log)).unwrap();
    registry.register(Probe::new("b", 2, &log)).unwrap();
    registry.register(Probe::new("c", 3, &log)).unwrap();
    let failures = registry.lifecycle_failures(&vec![
        Err(ComponentError::Generic("first".to_string())),
        Ok(()),
        Err(ComponentError::ExecutionFailed("third".to_string())),
        Err(ComponentError::Generic("nobody".to_string())),
    ]);
    assert_eq!(failures.len(), 2);
    assert_eq!(failures[0].name, "a");
    assert_eq!(failures[0].message, "Generic error: first");
    assert_eq!(failures[1].name, "c");
    assert_eq!(failures[1].message, "Component execution failed: third");
    assert!(registry.lifecycle_failures(&vec![]).is_empty());
    assert_eq!(registry.component_at(1).unwrap().name, "b");
    assert!(registry.component_at(3).is_none());
}
