//! Errors of the audio path.

use crate::text::prefixed;
use vstd::prelude::*;
use vstd::string::*;

verus! {

/// What can go wrong between the input device and the recorder's caller.
///
/// Errors that come from the audio backend carry the backend's own wording.
#[derive(Debug)]
pub enum AudioError {
    DeviceError(String),
    StreamError(String),
    BuildStreamError(String),
    PlayStreamError(String),
    DefaultStreamConfigError(String),
    UnsupportedFormat(String),
    ChannelError(String),
    StateError(String),
    IoError(String),
    WavError(String),
    NoInputDevice,
    NoOutputDevice,
    AlreadyRecording,
    NotRecording,
    AlreadyPaused,
    NotPaused,
    ThreadCommunicationFailed,
}

/// The mathematical content of an [`AudioError`].
pub enum AudioErrorModel {
    DeviceError(Seq<char>),
    StreamError(Seq<char>),
    BuildStreamError(Seq<char>),
    PlayStreamError(Seq<char>),
    DefaultStreamConfigError(Seq<char>),
    UnsupportedFormat(Seq<char>),
    ChannelError(Seq<char>),
    StateError(Seq<char>),
    IoError(Seq<char>),
    WavError(Seq<char>),
    NoInputDevice,
    NoOutputDevice,
    AlreadyRecording,
    NotRecording,
    AlreadyPaused,
    NotPaused,
    ThreadCommunicationFailed,
}

impl View for AudioError {
    type V = AudioErrorModel;

    open spec fn view(&self) -> AudioErrorModel {
        match *self {
            AudioError::DeviceError(m) => AudioErrorModel::DeviceError(m@),
            AudioError::StreamError(m) => AudioErrorModel::StreamError(m@),
            AudioError::BuildStreamError(m) => AudioErrorModel::BuildStreamError(m@),
            AudioError::PlayStreamError(m) => AudioErrorModel::PlayStreamError(m@),
            AudioError::DefaultStreamConfigError(m) => AudioErrorModel::DefaultStreamConfigError(
                m@,
            ),
            AudioError::UnsupportedFormat(m) => AudioErrorModel::UnsupportedFormat(m@),
            AudioError::ChannelError(m) => AudioErrorModel::ChannelError(m@),
            AudioError::StateError(m) => AudioErrorModel::StateError(m@),
            AudioError::IoError(m) => AudioErrorModel::IoError(m@),
            AudioError::WavError(m) => AudioErrorModel::WavError(m@),
            AudioError::NoInputDevice => AudioErrorModel::NoInputDevice,
            AudioError::NoOutputDevice => AudioErrorModel::NoOutputDevice,
            AudioError::AlreadyRecording => AudioErrorModel::AlreadyRecording,
            AudioError::NotRecording => AudioErrorModel::NotRecording,
            AudioError::AlreadyPaused => AudioErrorModel::AlreadyPaused,
            AudioError::NotPaused => AudioErrorModel::NotPaused,
            AudioError::ThreadCommunicationFailed => AudioErrorModel::ThreadCommunicationFailed,
        }
    }
}

/// The text of an error.
pub open spec fn error_text(e: AudioErrorModel) -> Seq<char> {
    match e {
        AudioErrorModel::DeviceError(m) => "Audio device error: "@ + m,
        AudioErrorModel::StreamError(m) => "Stream error: "@ + m,
        AudioErrorModel::BuildStreamError(m) => "Build stream error: "@ + m,
        AudioErrorModel::PlayStreamError(m) => "Play stream error: "@ + m,
        AudioErrorModel::DefaultStreamConfigError(m) => "Default stream config error: "@ + m,
        AudioErrorModel::UnsupportedFormat(m) => "Unsupported sample format: "@ + m,
        AudioErrorModel::ChannelError(m) => "Channel communication error: "@ + m,
        AudioErrorModel::StateError(m) => "Recording state error: "@ + m,
        AudioErrorModel::IoError(m) => "File I/O error: "@ + m,
        AudioErrorModel::WavError(m) => "WAV file error: "@ + m,
        AudioErrorModel::NoInputDevice => "No audio input device available"@,
        AudioErrorModel::NoOutputDevice => "No audio output device available"@,
        AudioErrorModel::AlreadyRecording => "Recording already in progress"@,
        AudioErrorModel::NotRecording => "Recording not active"@,
        AudioErrorModel::AlreadyPaused => "Recording already paused"@,
        AudioErrorModel::NotPaused => "Recording not paused"@,
        AudioErrorModel::ThreadCommunicationFailed => "Thread communication failed"@,
    }
}

impl AudioError {
    /// The error as a line of text.
    pub fn message(&self) -> (s: String)
        ensures
            s@ == error_text(self@),
    {
        match self {
            AudioError::DeviceError(m) => prefixed("Audio device error: ", m.as_str()),
            AudioError::StreamError(m) => prefixed("Stream error: ", m.as_str()),
            AudioError::BuildStreamError(m) => prefixed("Build stream error: ", m.as_str()),
            AudioError::PlayStreamError(m) => prefixed("Play stream error: ", m.as_str()),
            AudioError::DefaultStreamConfigError(m) => prefixed(
                "Default stream config error: ",
                m.as_str(),
            ),
            AudioError::UnsupportedFormat(m) => prefixed(
                "Unsupported sample format: ",
                m.as_str(),
            ),
            AudioError::ChannelError(m) => prefixed("Channel communication error: ", m.as_str()),
            AudioError::StateError(m) => prefixed("Recording state error: ", m.as_str()),
            AudioError::IoError(m) => prefixed("File I/O error: ", m.as_str()),
            AudioError::WavError(m) => prefixed("WAV file error: ", m.as_str()),
            AudioError::NoInputDevice => String::from_str("No audio input device available"),
            AudioError::NoOutputDevice => String::from_str("No audio output device available"),
            AudioError::AlreadyRecording => String::from_str("Recording already in progress"),
            AudioError::NotRecording => String::from_str("Recording not active"),
            AudioError::AlreadyPaused => String::from_str("Recording already paused"),
            AudioError::NotPaused => String::from_str("Recording not paused"),
            AudioError::ThreadCommunicationFailed => String::from_str(
                "Thread communication failed",
            ),
        }
    }
}

} // verus!
