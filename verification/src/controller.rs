//! The controller's decisions: what each action asks of the recorder and
//! which lifecycle events follow.
//!
//! The controller itself sends commands, calls the transcription service and
//! broadcasts; here is what it sends and broadcasts, given what came back.

use crate::component::LifecycleEvent;
use crate::recorder::Command;
use crate::types::ShortcutAction;
use vstd::prelude::*;
use vstd::string::*;

verus! {

/// What the controller does for an action.
#[derive(Clone, Copy, Debug, PartialEq, Eq, Structural)]
pub enum Operation {
    Start,
    Stop,
    Cancel,
    Pause,
    Resume,
}

/// Whether captured audio is transcribed after an operation, and how.
#[derive(Clone, Copy, Debug, PartialEq, Eq, Structural)]
pub enum Transcription {
    /// The audio is not transcribed.
    Skipped,
    /// The whole recording is transcribed and its text delivered.
    Final,
    /// The segment that a pause ended is transcribed.
    Partial,
}

/// The operation that an action stands for. Pause toggles: while the
/// recorder is paused it resumes.
pub open spec fn operation_of(action: ShortcutAction, recorder_paused: bool) -> Operation {
    match action {
        ShortcutAction::Start => Operation::Start,
        ShortcutAction::Stop => Operation::Stop,
        ShortcutAction::Cancel => Operation::Cancel,
        ShortcutAction::Pause => if recorder_paused {
            Operation::Resume
        } else {
            Operation::Pause
        },
    }
}

/// The command that an operation sends to the recorder. A cancel stops the
/// recording and throws the audio away.
pub open spec fn command_of(op: Operation) -> Command {
    match op {
        Operation::Start => Command::StartRecording,
        Operation::Stop => Command::StopRecording,
        Operation::Cancel => Command::StopRecording,
        Operation::Pause => Command::PauseRecording,
        Operation::Resume => Command::ResumeRecording,
    }
}

/// The event broadcast once the recorder has done its part.
pub open spec fn event_of(op: Operation) -> LifecycleEvent {
    match op {
        Operation::Start => LifecycleEvent::Start,
        Operation::Stop => LifecycleEvent::Stop,
        Operation::Cancel => LifecycleEvent::Cancel,
        Operation::Pause => LifecycleEvent::Pause,
        Operation::Resume => LifecycleEvent::Resume,
    }
}

/// Whether the event of an operation is broadcast, given whether the
/// recorder succeeded: always for a cancel, else only after success.
pub open spec fn is_broadcast(op: Operation, recorder_succeeded: bool) -> bool {
    op == Operation::Cancel || recorder_succeeded
}

/// Whether an error sound is played: when a start or a resume fails.
pub open spec fn plays_error_sound(op: Operation, recorder_succeeded: bool) -> bool {
    !recorder_succeeded && (op == Operation::Start || op == Operation::Resume)
}

/// Whether the audio of a successful operation is transcribed: after a stop
/// always, after a pause where that is configured, never after a cancel.
pub open spec fn transcription_of(op: Operation, transcribe_on_pause: bool) -> Transcription {
    match op {
        Operation::Stop => Transcription::Final,
        Operation::Pause => if transcribe_on_pause {
            Transcription::Partial
        } else {
            Transcription::Skipped
        },
        _ => Transcription::Skipped,
    }
}

/// The event broadcast before the transcription service is called.
pub open spec fn before_transcription(kind: Transcription) -> Option<LifecycleEvent> {
    match kind {
        Transcription::Skipped => None,
        Transcription::Final => Some(LifecycleEvent::ProcessingStart),
        Transcription::Partial => Some(LifecycleEvent::PartialProcessingStart),
    }
}

/// The operation that an action stands for.
pub fn operation_for(action: ShortcutAction, recorder_paused: bool) -> (op: Operation)
    ensures
        op == operation_of(action, recorder_paused),
{
    match action {
        ShortcutAction::Start => Operation::Start,
        ShortcutAction::Stop => Operation::Stop,
        ShortcutAction::Cancel => Operation::Cancel,
        ShortcutAction::Pause => if recorder_paused {
            Operation::Resume
        } else {
            Operation::Pause
        },
    }
}

/// The command that an operation sends to the recorder.
pub fn command_for(op: Operation) -> (c: Command)
    ensures
        c == command_of(op),
{
    match op {
        Operation::Start => Command::StartRecording,
        Operation::Stop => Command::StopRecording,
        Operation::Cancel => Command::StopRecording,
        Operation::Pause => Command::PauseRecording,
        Operation::Resume => Command::ResumeRecording,
    }
}

/// The event to broadcast once the recorder has answered, if any.
pub fn event_after(op: Operation, recorder_succeeded: bool) -> (e: Option<LifecycleEvent>)
    ensures
        match e {
            Some(event) => is_broadcast(op, recorder_succeeded) && event == event_of(op),
            None => !is_broadcast(op, recorder_succeeded),
        },
{
    match op {
        Operation::Cancel => Some(LifecycleEvent::Cancel),
        _ => {
            if !recorder_succeeded {
                return None;
            }
            match op {
                Operation::Start => Some(LifecycleEvent::Start),
                Operation::Stop => Some(LifecycleEvent::Stop),
                Operation::Pause => Some(LifecycleEvent::Pause),
                Operation::Resume => Some(LifecycleEvent::Resume),
                Operation::Cancel => Some(LifecycleEvent::Cancel),
            }
        },
    }
}

/// Whether to play the error sound.
pub fn error_sound_after(op: Operation, recorder_succeeded: bool) -> (b: bool)
    ensures
        b == plays_error_sound(op, recorder_succeeded),
{
    if recorder_succeeded {
        return false;
    }
    match op {
        Operation::Start => true,
        Operation::Resume => true,
        _ => false,
    }
}

/// Whether and how to transcribe after a successful operation.
pub fn transcription_after(op: Operation, transcribe_on_pause: bool) -> (t: Transcription)
    ensures
        t == transcription_of(op, transcribe_on_pause),
{
    match op {
        Operation::Stop => Transcription::Final,
        Operation::Pause => if transcribe_on_pause {
            Transcription::Partial
        } else {
            Transcription::Skipped
        },
        _ => Transcription::Skipped,
    }
}

/// The event to broadcast before the transcription service is called.
pub fn transcription_started(kind: Transcription) -> (e: Option<LifecycleEvent>)
    ensures
        e == before_transcription(kind),
{
    match kind {
        Transcription::Skipped => None,
        Transcription::Final => Some(LifecycleEvent::ProcessingStart),
        Transcription::Partial => Some(LifecycleEvent::PartialProcessingStart),
    }
}

/// The event to broadcast once the transcription service has answered: the
/// text, or the error's text.
pub fn transcription_finished(kind: Transcription, result: Result<String, String>) -> (e: Option<
    LifecycleEvent,
>)
    ensures
        match (kind, result) {
            (Transcription::Skipped, _) => e is None,
            (Transcription::Final, Ok(text)) => e matches Some(
                LifecycleEvent::ProcessingComplete(t),
            ) && t@ == text@,
            (Transcription::Partial, Ok(text)) => e matches Some(
                LifecycleEvent::PartialProcessingComplete(t),
            ) && t@ == text@,
            (_, Err(error)) => e matches Some(LifecycleEvent::Error(t)) && t@ == error@,
        },
{
    match kind {
        Transcription::Skipped => None,
        Transcription::Final => match result {
            Ok(text) => Some(LifecycleEvent::ProcessingComplete(text)),
            Err(error) => Some(LifecycleEvent::Error(error)),
        },
        Transcription::Partial => match result {
            Ok(text) => Some(LifecycleEvent::PartialProcessingComplete(text)),
            Err(error) => Some(LifecycleEvent::Error(error)),
        },
    }
}

/// A cancel never leads to a transcription, whatever is configured.
pub proof fn lemma_cancel_is_not_transcribed(transcribe_on_pause: bool)
    ensures
        transcription_of(Operation::Cancel, transcribe_on_pause) == Transcription::Skipped,
        before_transcription(transcription_of(Operation::Cancel, transcribe_on_pause)) is None,
{
}

} // verus!
