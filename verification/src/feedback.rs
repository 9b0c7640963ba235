//! Two small observers: the one that plays feedback sounds and the one that
//! delivers the transcribed text. Each decides here; playing and pasting
//! happen outside.

use crate::component::{ExecutionMode, LifecycleEvent};
use vstd::prelude::*;
use vstd::string::*;

verus! {

/// A feedback sound.
#[derive(Clone, Copy, Debug, PartialEq, Eq, Structural)]
pub enum Sound {
    Start,
    Stop,
    Complete,
}

/// The sound that goes with an event, if one does: the start sound when a
/// recording starts or resumes, the stop sound when it stops, pauses or is
/// cancelled, the completion sound when the text is there.
pub open spec fn sound_of(event: LifecycleEvent) -> Option<Sound> {
    match event {
        LifecycleEvent::Start => Some(Sound::Start),
        LifecycleEvent::Resume => Some(Sound::Start),
        LifecycleEvent::Stop => Some(Sound::Stop),
        LifecycleEvent::Pause => Some(Sound::Stop),
        LifecycleEvent::Cancel => Some(Sound::Stop),
        LifecycleEvent::ProcessingComplete(_) => Some(Sound::Complete),
        _ => None,
    }
}

/// The observer that plays feedback sounds.
#[derive(Debug)]
pub struct AudioComponent {
    name: String,
}

impl AudioComponent {
    pub fn new() -> (c: Self)
        ensures
            c.spec_name() == "Audio"@,
    {
        AudioComponent { name: String::from_str("Audio") }
    }

    /// The component's name.
    pub closed spec fn spec_name(&self) -> Seq<char> {
        self.name@
    }

    pub fn name(&self) -> (n: &str)
        ensures
            n@ == self.spec_name(),
    {
        self.name.as_str()
    }

    pub fn execution_mode(&self) -> (m: ExecutionMode)
        ensures
            m == ExecutionMode::Parallel,
    {
        ExecutionMode::Parallel
    }

    /// The sound to play for `event`.
    pub fn sound_for(&self, event: &LifecycleEvent) -> (s: Option<Sound>)
        ensures
            s == sound_of(*event),
    {
        match event {
            LifecycleEvent::Start => Some(Sound::Start),
            LifecycleEvent::Resume => Some(Sound::Start),
            LifecycleEvent::Stop => Some(Sound::Stop),
            LifecycleEvent::Pause => Some(Sound::Stop),
            LifecycleEvent::Cancel => Some(Sound::Stop),
            LifecycleEvent::ProcessingComplete(_) => Some(Sound::Complete),
            _ => None,
        }
    }
}

/// How a transcription reaches the user.
#[derive(Clone, Copy, Debug, PartialEq, Eq, Structural)]
pub enum Delivery {
    /// There is nothing to deliver.
    Nothing,
    /// Put the text on the clipboard and synthesise a paste.
    InsertAtCursor,
    /// Put the text on the clipboard.
    SetClipboard,
}

/// How `result` is delivered: not at all if it is empty, else by pasting if
/// pasting is configured, else by the clipboard alone.
pub open spec fn delivery_of(result: Seq<char>, paste: bool) -> Delivery {
    if result.len() == 0 {
        Delivery::Nothing
    } else if paste {
        Delivery::InsertAtCursor
    } else {
        Delivery::SetClipboard
    }
}

/// The observer that delivers the transcribed text.
#[derive(Debug)]
pub struct TranscriptionHandler;

impl TranscriptionHandler {
    pub fn new() -> (h: Self) {
        TranscriptionHandler
    }

    pub fn name(&self) -> (n: &'static str)
        ensures
            n@ == "TranscriptionHandler"@,
    {
        "TranscriptionHandler"
    }

    pub fn execution_mode(&self) -> (m: ExecutionMode)
        ensures
            m == ExecutionMode::Sequential,
    {
        ExecutionMode::Sequential
    }

    /// How the final transcription `result` is delivered.
    pub fn on_processing_complete(&self, result: &str, paste: bool) -> (d: Delivery)
        ensures
            d == delivery_of(result@, paste),
    {
        if result.unicode_len() == 0 {
            Delivery::Nothing
        } else if paste {
            Delivery::InsertAtCursor
        } else {
            Delivery::SetClipboard
        }
    }
}

} // verus!
