//! Push-to-talk core: a keyboard shortcut matcher, the capture buffers of an
//! audio recorder together with the recorder's command protocol, and a
//! registry that fans recording lifecycle events out to components.
//!
//! The functions of this crate are verified with Verus against the contracts
//! written on them. The few calls into other crates (the ring of `ringbuf`,
//! the searcher of `aho_corasick`) and into parts of the standard library
//! without a specification stand behind small functions whose doc comments
//! begin with "Trusted" and say what is taken on trust.
//!
//! The crate reads no clock and no device. Time is a count of milliseconds on
//! a monotonic clock that the caller reads; keys are values of [`Key`];
//! whatever needs a device, a sleep or a thread is asked of the caller as a
//! step to perform and report back.

pub mod audio_error;
pub mod available_models;
pub mod bytes;
pub mod component;
pub mod config;
pub mod conflict_resolver;
pub mod controller;
pub mod conversion;
pub mod dynamic_buffer;
pub mod engine;
pub mod error;
pub mod feedback;
pub mod guarantees;
pub mod handler;
pub mod key;
pub mod key_set;
pub mod matcher;
pub mod ml_error;
pub mod model_support;
pub mod observer;
pub mod parser;
pub mod patterns;
pub mod recorder;
pub mod registry;
pub mod replacements;
pub mod ring_buffer;
pub mod smart_collector;
pub mod spotify;
pub mod text;
pub mod text_manipulation;
pub mod types;

pub use audio_error::AudioError;
pub use component::{Component, ComponentError, ComponentMetadata, ExecutionMode, LifecycleEvent};
pub use config::{Config, ShortcutConfigProvider};
pub use conflict_resolver::ConflictResolver;
pub use conversion::{convert_audio_data, AudioSample};
pub use dynamic_buffer::DynamicBuffer;
pub use engine::MatcherEngine;
pub use error::MatcherError;
pub use feedback::{AudioComponent, TranscriptionHandler};
pub use handler::ShortcutHandler;
pub use key::Key;
pub use key_set::KeySet;
pub use ml_error::TranscriptionError;
pub use model_support::ModelInfo;
pub use observer::TranscriptionObserver;
pub use parser::{parse_multiple_patterns, parse_pattern, ParseError};
pub use recorder::{AudioData, Command, Directive, RecorderState, Response};
pub use registry::{ComponentRegistry, InitOutcome, InitializationFailure, RegistryBuilder};
pub use replacements::{parse_replace_pairs, ReplacementTable};
pub use ring_buffer::RingBuffer;
pub use smart_collector::SmartCollector;
pub use spotify::{SpotifyComponent, SpotifyError, VolumeLevel};
pub use text_manipulation::handle_transcribed_text;
pub use types::{
    ConflictStrategy, DelayedAction, DelayedActionId, KeyEvent, KeyState, MatchResult,
    PatternType, ShortcutAction, ShortcutEngineState,
};
