//! Errors of the transcription service.

use crate::text::prefixed;
use vstd::prelude::*;
use vstd::string::*;

verus! {

/// What can go wrong between captured audio and its text.
#[derive(Debug)]
pub enum TranscriptionError {
    NotInitialized,
    PythonError(String),
    ModelNotLoaded,
    EmptyAudioData,
    TranscriptionFailed(String),
    LockError(String),
    InitializationError(String),
    ModelLoadingError(String),
    InvalidAudioFormat(String),
    ServiceUnavailable(String),
}

/// The mathematical content of a [`TranscriptionError`].
pub enum TranscriptionErrorModel {
    NotInitialized,
    PythonError(Seq<char>),
    ModelNotLoaded,
    EmptyAudioData,
    TranscriptionFailed(Seq<char>),
    LockError(Seq<char>),
    InitializationError(Seq<char>),
    ModelLoadingError(Seq<char>),
    InvalidAudioFormat(Seq<char>),
    ServiceUnavailable(Seq<char>),
}

impl View for TranscriptionError {
    type V = TranscriptionErrorModel;

    open spec fn view(&self) -> TranscriptionErrorModel {
        match *self {
            TranscriptionError::NotInitialized => TranscriptionErrorModel::NotInitialized,
            TranscriptionError::PythonError(m) => TranscriptionErrorModel::PythonError(m@),
            TranscriptionError::ModelNotLoaded => TranscriptionErrorModel::ModelNotLoaded,
            TranscriptionError::EmptyAudioData => TranscriptionErrorModel::EmptyAudioData,
            TranscriptionError::TranscriptionFailed(m) =>
                TranscriptionErrorModel::TranscriptionFailed(m@),
            TranscriptionError::LockError(m) => TranscriptionErrorModel::LockError(m@),
            TranscriptionError::InitializationError(m) =>
                TranscriptionErrorModel::InitializationError(m@),
            TranscriptionError::ModelLoadingError(m) => TranscriptionErrorModel::ModelLoadingError(
                m@,
            ),
            TranscriptionError::InvalidAudioFormat(m) =>
                TranscriptionErrorModel::InvalidAudioFormat(m@),
            TranscriptionError::ServiceUnavailable(m) =>
                TranscriptionErrorModel::ServiceUnavailable(m@),
        }
    }
}

/// The text of a transcription error.
pub open spec fn transcription_error_text(e: TranscriptionErrorModel) -> Seq<char> {
    match e {
        TranscriptionErrorModel::NotInitialized => "Transcription engine not initialized"@,
        TranscriptionErrorModel::PythonError(m) => "Python error: "@ + m,
        TranscriptionErrorModel::ModelNotLoaded => "Model not loaded"@,
        TranscriptionErrorModel::EmptyAudioData => "Empty audio data provided"@,
        TranscriptionErrorModel::TranscriptionFailed(m) => "Transcription failed: "@ + m,
        TranscriptionErrorModel::LockError(m) => "Failed to lock transcription engine: "@ + m,
        TranscriptionErrorModel::InitializationError(m) => "Initialization failed: "@ + m,
        TranscriptionErrorModel::ModelLoadingError(m) => "Model loading failed: "@ + m,
        TranscriptionErrorModel::InvalidAudioFormat(m) =>
            "Invalid audio format or parameters: "@ + m,
        TranscriptionErrorModel::ServiceUnavailable(m) => "Service temporarily unavailable: "@ + m,
    }
}

impl TranscriptionError {
    /// The error as a line of text.
    pub fn message(&self) -> (s: String)
        ensures
            s@ == transcription_error_text(self@),
    {
        match self {
            TranscriptionError::NotInitialized => String::from_str(
                "Transcription engine not initialized",
            ),
            TranscriptionError::PythonError(m) => prefixed("Python error: ", m.as_str()),
            TranscriptionError::ModelNotLoaded => String::from_str("Model not loaded"),
            TranscriptionError::EmptyAudioData => String::from_str("Empty audio data provided"),
            TranscriptionError::TranscriptionFailed(m) => prefixed(
                "Transcription failed: ",
                m.as_str(),
            ),
            TranscriptionError::LockError(m) => prefixed(
                "Failed to lock transcription engine: ",
                m.as_str(),
            ),
            TranscriptionError::InitializationError(m) => prefixed(
                "Initialization failed: ",
                m.as_str(),
            ),
            TranscriptionError::ModelLoadingError(m) => prefixed(
                "Model loading failed: ",
                m.as_str(),
            ),
            TranscriptionError::InvalidAudioFormat(m) => prefixed(
                "Invalid audio format or parameters: ",
                m.as_str(),
            ),
            TranscriptionError::ServiceUnavailable(m) => prefixed(
                "Service temporarily unavailable: ",
                m.as_str(),
            ),
        }
    }
}

} // verus!
