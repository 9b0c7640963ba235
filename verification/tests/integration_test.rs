use para_speak::component::{Component, ComponentError, LifecycleEvent};
use para_speak::controller::{
    command_for, error_sound_after, event_after, operation_for, transcription_after,
    transcription_finished, transcription_started, Operation, Transcription,
};
use para_speak::recorder::{Command, Directive, RecorderState, Response};
use para_speak::{
    ComponentRegistry, DynamicBuffer, Key, KeyEvent, MatcherEngine, ShortcutAction,
    ShortcutEngineState,
};
use std::cell::Cell;
use std::rc::Rc;

#[derive(Default)]
struct Counts {
    start: Cell<usize>,
    stop: Cell<usize>,
    pause: Cell<usize>,
    resume: Cell<usize>,
    cancel: Cell<usize>,
    processing_start: Cell<usize>,
    processing_complete: Cell<usize>,
}

fn bump(c: &Cell<usize>) {
    c.set(c.get() + 1);
}

struct Counter {
    counts: Rc<Counts>,
}

impl Component for Counter {
    fn name(&self) -> &str {
        "Counter"
    }

    fn type_id(&self) -> u64 {
        1
    }

    fn on_start(&self) -> Result<(), ComponentError> {
        bump(&self.counts.start);
        Ok(())
    }

    fn on_stop(&self) -> Result<(), ComponentError> {
        bump(&self.counts.stop);
        Ok(())
    }

    fn on_pause(&self) -> Result<(), ComponentError> {
        bump(&self.counts.pause);
        Ok(())
    }

    fn on_resume(&self) -> Result<(), ComponentError> {
        bump(&self.counts.resume);
        Ok(())
    }

    fn on_cancel(&self) -> Result<(), ComponentError> {
        bump(&self.counts.cancel);
        Ok(())
    }

    fn on_processing_start(&self) -> Result<(), ComponentError> {
        bump(&self.counts.processing_start);
        Ok(())
    }

    fn on_processing_complete(&self, _result: &str) -> Result<(), ComponentError> {
        bump(&self.counts.processing_complete);
        Ok(())
    }
}

/// A controller over a recorder without a device: streams always open, the
/// flush wait is skipped, and the transcription is a fixed text.
struct MockController {
    recorder: RecorderState,
    buffer: DynamicBuffer,
    registry: ComponentRegistry<Counter>,
    counts: Rc<Counts>,
    handle_start_count: usize,
    handle_stop_count: usize,
    handle_pause_count: usize,
    handle_cancel_count: usize,
    error_sounds: usize,
}

impl MockController {
    fn new() -> Self {
        let counts = Rc::new(Counts::default());
        let mut registry = ComponentRegistry::new();
        registry.register(Counter { counts: counts.clone() }).unwrap();
        MockController {
            recorder: RecorderState::new(16000),
            buffer: DynamicBuffer::new(16000, 1),
            registry,
            counts,
            handle_start_count: 0,
            handle_stop_count: 0,
            handle_pause_count: 0,
            handle_cancel_count: 0,
            error_sounds: 0,
        }
    }

    fn send(&mut self, command: Command) -> Response {
        let mut directive = self.recorder.handle_command(command, &mut self.buffer, 0);
        loop {
            directive = match directive {
                Directive::Respond(response) => return response,
                Directive::OpenStream { .. } => self.recorder.stream_opened(Ok(()), 0),
                Directive::Flush { .. } => {
                    Directive::Respond(self.recorder.flushed(&mut self.buffer, 0))
                }
                Directive::Exit => panic!("the worker left its loop"),
            };
        }
    }

    fn notify(&self, event: Option<LifecycleEvent>) {
        if let Some(event) = event {
            self.registry.broadcast_lifecycle(&event);
        }
    }

    fn handle_action(&mut self, action: ShortcutAction) {
        let op = operation_for(action, self.recorder.is_paused());
        match op {
            Operation::Start => self.handle_start_count += 1,
            Operation::Stop => self.handle_stop_count += 1,
            Operation::Cancel => self.handle_cancel_count += 1,
            Operation::Pause | Operation::Resume => self.handle_pause_count += 1,
        }
        let succeeded = !matches!(self.send(command_for(op)), Response::Error(_));
        if error_sound_after(op, succeeded) {
            self.error_sounds += 1;
        }
        self.notify(event_after(op, succeeded));
        if succeeded {
            let kind = transcription_after(op, false);
            self.notify(transcription_started(kind));
            self.notify(transcription_finished(kind, Ok("Transcribed text 1".to_string())));
        }
    }
}

fn simulate_key_press(engine: &mut MatcherEngine, key: Key) -> Option<ShortcutAction> {
    engine.process_event_with_time(KeyEvent::Press(key), 0)
}

#[test]
fn test_shortcut_triggers_controller() {
    // Setup mock controller
    let mut controller = MockController::new();

    // Create shortcut engine with test patterns
    let mut engine = MatcherEngine::new_with_patterns(
        Some(50),
        vec![
            ("F1", ShortcutAction::Start),
            ("F2", ShortcutAction::Stop),
            ("F3", ShortcutAction::Pause),
            ("F4", ShortcutAction::Cancel),
        ],
    );

    // Initially, no methods should have been called
    assert_eq!(controller.handle_start_count, 0);
    assert_eq!(controller.handle_stop_count, 0);

    // Simulate F1 key press (Start)
    if let Some(action) = simulate_key_press(&mut engine, Key::F1) {
        controller.handle_action(action);
    }

    // Verify start was called
    assert_eq!(controller.handle_start_count, 1);
    assert!(controller.recorder.is_recording());

    // Update engine state to Active (since recording started)
    engine.set_state(ShortcutEngineState::Active);

    // Simulate F3 key press (Pause)
    if let Some(action) = simulate_key_press(&mut engine, Key::F3) {
        controller.handle_action(action);
    }

    // Verify pause was called
    assert_eq!(controller.handle_pause_count, 1);
    assert!(controller.recorder.is_paused());

    // Update engine state to Paused
    engine.set_state(ShortcutEngineState::Paused);

    // Simulate F3 key press again (Resume)
    if let Some(action) = simulate_key_press(&mut engine, Key::F3) {
        controller.handle_action(action);
    }

    // Verify pause was called again (which handles resume)
    assert_eq!(controller.handle_pause_count, 2);
    assert!(!controller.recorder.is_paused());

    // Update engine state back to Active
    engine.set_state(ShortcutEngineState::Active);

    // Simulate F2 key press (Stop)
    if let Some(action) = simulate_key_press(&mut engine, Key::F2) {
        controller.handle_action(action);
    }

    // Verify stop was called
    assert_eq!(controller.handle_stop_count, 1);
    assert!(!controller.recorder.is_recording());

    // Verify the complete flow
    assert_eq!(controller.counts.start.get(), 1);
    assert_eq!(controller.counts.pause.get(), 1);
    assert_eq!(controller.counts.resume.get(), 1);
    assert_eq!(controller.counts.stop.get(), 1);
    assert_eq!(controller.counts.processing_start.get(), 1);
    assert_eq!(controller.counts.processing_complete.get(), 1);
}

#[test]
fn test_cancel_shortcut() {
    // Setup mock controller
    let mut controller = MockController::new();

    // Create shortcut engine
    let mut engine = MatcherEngine::new_with_patterns(
        Some(50),
        vec![("F1", ShortcutAction::Start), ("F4", ShortcutAction::Cancel)],
    );

    // Start recording
    if let Some(action) = simulate_key_press(&mut engine, Key::F1) {
        controller.handle_action(action);
    }

    assert_eq!(controller.handle_start_count, 1);
    assert!(controller.recorder.is_recording());

    // Update engine state to Active
    engine.set_state(ShortcutEngineState::Active);

    // Cancel recording
    if let Some(action) = simulate_key_press(&mut engine, Key::F4) {
        controller.handle_action(action);
    }

    // Verify cancel was called
    assert_eq!(controller.handle_cancel_count, 1);
    assert!(!controller.recorder.is_recording());
    assert_eq!(controller.counts.cancel.get(), 1);

    // Verify no transcription happened (since we cancelled)
    assert_eq!(controller.counts.processing_start.get(), 0);
    assert_eq!(controller.counts.processing_complete.get(), 0);
}

#[test]
fn a_failed_start_sounds_an_error_and_tells_nobody() {
    let mut controller = MockController::new();
    controller.handle_action(ShortcutAction::Start);
    controller.handle_action(ShortcutAction::Start);
    assert_eq!(controller.error_sounds, 1);
    assert_eq!(controller.counts.start.get(), 1);
    // a stop that fails is silent; a cancel is always broadcast
    let mut idle = MockController::new();
    idle.handle_action(ShortcutAction::Stop);
    assert_eq!(idle.error_sounds, 0);
    assert_eq!(idle.counts.stop.get(), 0);
    idle.handle_action(ShortcutAction::Cancel);
    assert_eq!(idle.counts.cancel.get(), 1);
}

#[test]
fn a_pause_is_transcribed_where_configured() {
    assert_eq!(transcription_after(Operation::Pause, true), Transcription::Partial);
    assert_eq!(transcription_after(Operation::Pause, false), Transcription::Skipped);
    assert_eq!(transcription_after(Operation::Stop, false), Transcription::Final);
    assert_eq!(transcription_after(Operation::Cancel, true), Transcription::Skipped);
    assert_eq!(transcription_after(Operation::Start, true), Transcription::Skipped);
    assert!(matches!(
        transcription_started(Transcription::Partial),
        Some(LifecycleEvent::PartialProcessingStart)
    ));
    assert!(transcription_started(Transcription::Skipped).is_none());
    match transcription_finished(Transcription::Partial, Ok("half".to_string())) {
        Some(LifecycleEvent::PartialProcessingComplete(text)) => assert_eq!(text, "half"),
        other => panic!("unexpected {:?}", other),
    }
    match transcription_finished(Transcription::Final, Err("down".to_string())) {
        Some(LifecycleEvent::Error(text)) => assert_eq!(text, "down"),
        other => panic!("unexpected {:?}", other),
    }
    assert!(transcription_finished(Transcription::Skipped, Ok("x".to_string())).is_none());
    assert_eq!(command_for(Operation::Cancel), Command::StopRecording);
    assert_eq!(command_for(Operation::Resume), Command::ResumeRecording);
    assert_eq!(operation_for(ShortcutAction::Pause, true), Operation::Resume);
    assert_eq!(operation_for(ShortcutAction::Pause, false), Operation::Pause);
}
