//! Errors of the matcher engine.

use crate::text::{decimal, decimal_string, prefixed};
use vstd::prelude::*;
use vstd::string::*;

verus! {

/// What can go wrong inside the matcher engine.
#[derive(Debug)]
pub enum MatcherError {
    /// One event both completed a pattern and scheduled delayed actions.
    ConflictingActions { has_immediate: bool, delayed_count: usize, event_debug: String },
    InvalidState { message: String },
    ProcessingError { message: String },
}

/// The mathematical content of a [`MatcherError`].
pub enum MatcherErrorModel {
    ConflictingActions { has_immediate: bool, delayed_count: usize, event_debug: Seq<char> },
    InvalidState { message: Seq<char> },
    ProcessingError { message: Seq<char> },
}

impl View for MatcherError {
    type V = MatcherErrorModel;

    open spec fn view(&self) -> MatcherErrorModel {
        match *self {
            MatcherError::ConflictingActions { has_immediate, delayed_count, event_debug } =>
                MatcherErrorModel::ConflictingActions {
                    has_immediate,
                    delayed_count,
                    event_debug: event_debug@,
                },
            MatcherError::InvalidState { message } => MatcherErrorModel::InvalidState {
                message: message@,
            },
            MatcherError::ProcessingError { message } => MatcherErrorModel::ProcessingError {
                message: message@,
            },
        }
    }
}

/// `true` or `false`.
pub open spec fn bool_text(b: bool) -> Seq<char> {
    if b {
        "true"@
    } else {
        "false"@
    }
}

/// The text of a matcher error.
pub open spec fn matcher_error_text(e: MatcherErrorModel) -> Seq<char> {
    match e {
        MatcherErrorModel::ConflictingActions { has_immediate, delayed_count, event_debug } =>
            "Conflicting actions detected: immediate="@ + bool_text(has_immediate)
                + ", delayed_count="@ + decimal(delayed_count as nat) + ", event="@ + event_debug,
        MatcherErrorModel::InvalidState { message } => "Invalid state: "@ + message,
        MatcherErrorModel::ProcessingError { message } => "Processing error: "@ + message,
    }
}

impl MatcherError {
    /// The error as a line of text.
    pub fn message(&self) -> (s: String)
        ensures
            s@ == matcher_error_text(self@),
    {
        match self {
            MatcherError::ConflictingActions { has_immediate, delayed_count, event_debug } => {
                let mut s = String::from_str("Conflicting actions detected: immediate=");
                if *has_immediate {
                    s.append("true");
                } else {
                    s.append("false");
                }
                s.append(", delayed_count=");
                let count = decimal_string(*delayed_count as u64);
                s.append(count.as_str());
                s.append(", event=");
                s.append(event_debug.as_str());
                s
            },
            MatcherError::InvalidState { message } => prefixed("Invalid state: ", message.as_str()),
            MatcherError::ProcessingError { message } => prefixed(
                "Processing error: ",
                message.as_str(),
            ),
        }
    }
}

} // verus!
