//! The configuration: read once at startup, read-only afterwards.

use crate::model_support::{
    get_default_model, is_model_supported, model_index, supported_names,
};
use crate::replacements::{
    default_entries, parse_replace_pairs, replacements_of, ReplacementModel, ReplacementTable,
};
use crate::text::prefixed;
use vstd::prelude::*;
use vstd::string::*;

verus! {

/// The sample rate of captured audio, in hertz.
pub const SAMPLE_RATE: u32 = 48000;

/// The seconds of audio that the capture buffer reserves at first.
pub const INITIAL_BUFFER_SECONDS: u32 = 15;

/// The margin for resolving shortcut conflicts where none is configured.
pub const DEFAULT_RESOLUTION_DELAY_MS: u64 = 50;

/// Where the shortcut patterns of each action are found.
pub trait ShortcutConfigProvider {
    fn start_keys(&self) -> &Vec<String>;

    fn stop_keys(&self) -> &Vec<String>;

    fn cancel_keys(&self) -> &Vec<String>;

    fn pause_keys(&self) -> &Vec<String>;
}

/// The configuration.
#[derive(Debug)]
pub struct Config {
    pub debug: bool,
    pub paste: bool,
    pub realtime: bool,
    pub spotify_recording_volume: Option<u32>,
    pub spotify_reduce_by: Option<u32>,
    pub start_keys: Vec<String>,
    pub stop_keys: Vec<String>,
    pub cancel_keys: Vec<String>,
    pub pause_keys: Vec<String>,
    pub transcribe_on_pause: bool,
    pub shortcut_resolution_delay_ms: Option<u64>,
    pub memory_monitor: bool,
    pub sample_rate: u32,
    pub initial_buffer_seconds: u32,
    pub transcription_replace_text: ReplacementTable,
    pub model: Option<String>,
    pub force: bool,
}

/// The content of a list of texts.
pub open spec fn strings_view(v: Seq<String>) -> Seq<Seq<char>> {
    Seq::new(v.len(), |i: int| v[i]@)
}

/// The keys unless there are none, in which case the one default.
pub open spec fn keys_or(keys: Seq<Seq<char>>, default: Seq<char>) -> Seq<Seq<char>> {
    if keys.len() == 0 {
        seq![default]
    } else {
        keys
    }
}

/// The error for a model that is neither supported nor forced.
pub open spec fn unsupported_model_text(name: Seq<char>) -> Seq<char> {
    "Model '"@ + name + "' is not in the list of supported models."@
}

fn one(text: &str) -> (v: Vec<String>)
    ensures
        strings_view(v@) == seq![text@],
{
    let mut v: Vec<String> = Vec::new();
    v.push(String::from_str(text));
    assert(strings_view(v@) =~= seq![text@]);
    v
}

impl Config {
    /// A configuration with the given shortcut keys and every other option at
    /// its plain value: nothing enabled, the default margin, sample rate,
    /// buffer size and model, no replacements.
    pub fn new_for_test(
        start_keys: Vec<String>,
        stop_keys: Vec<String>,
        cancel_keys: Vec<String>,
        pause_keys: Vec<String>,
    ) -> (c: Self)
        ensures
            c.start_keys == start_keys,
            c.stop_keys == stop_keys,
            c.cancel_keys == cancel_keys,
            c.pause_keys == pause_keys,
            !c.debug && !c.paste && !c.realtime && !c.transcribe_on_pause && !c.memory_monitor
                && !c.force,
            c.spotify_recording_volume is None,
            c.spotify_reduce_by is None,
            c.shortcut_resolution_delay_ms == Some(DEFAULT_RESOLUTION_DELAY_MS),
            c.sample_rate == SAMPLE_RATE,
            c.initial_buffer_seconds == INITIAL_BUFFER_SECONDS,
            c.transcription_replace_text@ == Seq::<ReplacementModel>::empty(),
            c.model matches Some(m) && m@ == supported_names()[0],
    {
        Config {
            debug: false,
            paste: false,
            realtime: false,
            spotify_recording_volume: None,
            spotify_reduce_by: None,
            start_keys,
            stop_keys,
            cancel_keys,
            pause_keys,
            transcribe_on_pause: false,
            shortcut_resolution_delay_ms: Some(DEFAULT_RESOLUTION_DELAY_MS),
            memory_monitor: false,
            sample_rate: SAMPLE_RATE,
            initial_buffer_seconds: INITIAL_BUFFER_SECONDS,
            transcription_replace_text: ReplacementTable::new(),
            model: Some(get_default_model()),
            force: false,
        }
    }

    /// Completes a configuration as read from the command line and the
    /// environment: the fixed sample rate and buffer size, the default margin,
    /// default keys for start, stop and cancel where none are given, the
    /// replacement table of `replace`, and the default model where none is
    /// named.
    pub fn with_defaults(self, replace: &Option<String>) -> (c: Self)
        ensures
            c.sample_rate == SAMPLE_RATE,
            c.initial_buffer_seconds == INITIAL_BUFFER_SECONDS,
            c.shortcut_resolution_delay_ms == Some(
                match self.shortcut_resolution_delay_ms {
                    Some(d) => d,
                    None => DEFAULT_RESOLUTION_DELAY_MS,
                },
            ),
            strings_view(c.start_keys@) == keys_or(
                strings_view(self.start_keys@),
                "double(ControlLeft, 300)"@,
            ),
            strings_view(c.stop_keys@) == keys_or(strings_view(self.stop_keys@), "ControlLeft"@),
            strings_view(c.cancel_keys@) == keys_or(
                strings_view(self.cancel_keys@),
                "double(Escape, 300)"@,
            ),
            c.pause_keys == self.pause_keys,
            c.transcription_replace_text@ == replacements_of(
                match *replace {
                    Some(s) => Some(s@),
                    None => None,
                },
            ),
            c.model matches Some(m) && m@ == (match self.model {
                Some(given) => given@,
                None => supported_names()[0],
            }),
            c.debug == self.debug,
            c.paste == self.paste,
            c.realtime == self.realtime,
            c.spotify_recording_volume == self.spotify_recording_volume,
            c.spotify_reduce_by == self.spotify_reduce_by,
            c.transcribe_on_pause == self.transcribe_on_pause,
            c.memory_monitor == self.memory_monitor,
            c.force == self.force,
    {
        let mut c = self;
        c.sample_rate = SAMPLE_RATE;
        c.initial_buffer_seconds = INITIAL_BUFFER_SECONDS;
        if c.shortcut_resolution_delay_ms.is_none() {
            c.shortcut_resolution_delay_ms = Some(DEFAULT_RESOLUTION_DELAY_MS);
        }
        if c.start_keys.len() == 0 {
            c.start_keys = one("double(ControlLeft, 300)");
        }
        if c.stop_keys.len() == 0 {
            c.stop_keys = one("ControlLeft");
        }
        if c.cancel_keys.len() == 0 {
            c.cancel_keys = one("double(Escape, 300)");
        }
        c.transcription_replace_text = parse_replace_pairs(replace);
        if c.model.is_none() {
            c.model = Some(get_default_model());
        }
        c
    }

    /// Whether the configuration may be used: the model is supported, or
    /// forced, or none is named. The error names the model.
    pub fn validate(&self) -> (r: Result<(), String>)
        ensures
            match r {
                Ok(_) => self.model matches Some(m) ==> model_index(m@) is Some || self.force,
                Err(e) => self.model matches Some(m) && model_index(m@) is None && !self.force
                    && e@ == unsupported_model_text(m@),
            },
    {
        match &self.model {
            Some(model) => {
                if !is_model_supported(model.as_str()) && !self.force {
                    let mut text = prefixed("Model '", model.as_str());
                    text.append("' is not in the list of supported models.");
                    Err(text)
                } else {
                    Ok(())
                }
            },
            None => Ok(()),
        }
    }

    /// The replacement table.
    pub fn transcription_replacements(&self) -> (t: &ReplacementTable)
        ensures
            *t == self.transcription_replace_text,
    {
        &self.transcription_replace_text
    }

    /// The name of the configured model.
    pub fn model_name(&self) -> (name: &str)
        requires
            self.model is Some,
        ensures
            name@ == self.model->0@,
    {
        match &self.model {
            Some(m) => m.as_str(),
            None => "",
        }
    }
}

impl ShortcutConfigProvider for Config {
    fn start_keys(&self) -> (keys: &Vec<String>)
        ensures
            *keys == self.start_keys,
    {
        &self.start_keys
    }

    fn stop_keys(&self) -> (keys: &Vec<String>)
        ensures
            *keys == self.stop_keys,
    {
        &self.stop_keys
    }

    fn cancel_keys(&self) -> (keys: &Vec<String>)
        ensures
            *keys == self.cancel_keys,
    {
        &self.cancel_keys
    }

    fn pause_keys(&self) -> (keys: &Vec<String>)
        ensures
            *keys == self.pause_keys,
    {
        &self.pause_keys
    }
}

} // verus!
