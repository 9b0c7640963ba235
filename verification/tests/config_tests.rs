use para_speak::config::Config;
use para_speak::model_support::get_default_model;
use para_speak::replacements::ReplacementTable;

#[test]
fn test_default_shortcut_keys() {
    let config = Config::new_for_test(vec![], vec![], vec![], vec![]);

    assert!(config.start_keys.is_empty());
    assert!(config.stop_keys.is_empty());
    assert!(config.cancel_keys.is_empty());
}

#[test]
fn test_default_values_applied() {
    let mut config = Config {
        debug: false,
        paste: false,
        realtime: false,
        spotify_recording_volume: None,
        spotify_reduce_by: None,
        start_keys: vec![],
        stop_keys: vec![],
        cancel_keys: vec![],
        pause_keys: vec![],
        transcribe_on_pause: false,
        shortcut_resolution_delay_ms: None,
        memory_monitor: false,
        sample_rate: 48000,
        initial_buffer_seconds: 15,
        transcription_replace_text: ReplacementTable::new(),
        model: Some(get_default_model()),
        force: false,
    };

    if config.start_keys.is_empty() {
        config.start_keys = vec!["double(ControlLeft, 300)".to_string()];
    }
    if config.stop_keys.is_empty() {
        config.stop_keys = vec!["ControlLeft".to_string()];
    }
    if config.cancel_keys.is_empty() {
        config.cancel_keys = vec!["double(Escape, 300)".to_string()];
    }

    assert_eq!(config.start_keys, vec!["double(ControlLeft, 300)"]);
    assert_eq!(config.stop_keys, vec!["ControlLeft"]);
    assert_eq!(config.cancel_keys, vec!["double(Escape, 300)"]);
}

fn bare() -> Config {
    Config {
        debug: true,
        paste: true,
        realtime: false,
        spotify_recording_volume: Some(20),
        spotify_reduce_by: None,
        start_keys: vec![],
        stop_keys: vec![],
        cancel_keys: vec![],
        pause_keys: vec![],
        transcribe_on_pause: false,
        shortcut_resolution_delay_ms: None,
        memory_monitor: false,
        sample_rate: 0,
        initial_buffer_seconds: 0,
        transcription_replace_text: ReplacementTable::new(),
        model: None,
        force: false,
    }
}

#[test]
fn with_defaults_fills_what_is_missing() {
    let config = bare().with_defaults(&None);
    assert_eq!(config.sample_rate, 48000);
    assert_eq!(config.initial_buffer_seconds, 15);
    assert_eq!(config.shortcut_resolution_delay_ms, Some(50));
    assert_eq!(config.start_keys, vec!["double(ControlLeft, 300)"]);
    assert_eq!(config.stop_keys, vec!["ControlLeft"]);
    assert_eq!(config.cancel_keys, vec!["double(Escape, 300)"]);
    assert!(config.pause_keys.is_empty());
    assert_eq!(config.model_name(), "mlx-community/parakeet-tdt-0.6b-v3");
    assert_eq!(config.transcription_replacements().len(), 8);
    assert!(config.debug && config.paste);
    assert_eq!(config.spotify_recording_volume, Some(20));
}

#[test]
fn with_defaults_keeps_what_is_given() {
    let mut given = bare();
    given.start_keys = vec!["F1".to_string()];
    given.stop_keys = vec!["F2".to_string(), "F3".to_string()];
    given.cancel_keys = vec!["F4".to_string()];
    given.pause_keys = vec!["F5".to_string()];
    given.shortcut_resolution_delay_ms = Some(75);
    given.model = Some("nvidia/canary-1b-v2".to_string());
    let config = given.with_defaults(&Some("ui:UI".to_string()));
    assert_eq!(config.start_keys, vec!["F1"]);
    assert_eq!(config.stop_keys, vec!["F2", "F3"]);
    assert_eq!(config.cancel_keys, vec!["F4"]);
    assert_eq!(config.pause_keys, vec!["F5"]);
    assert_eq!(config.shortcut_resolution_delay_ms, Some(75));
    assert_eq!(config.model_name(), "nvidia/canary-1b-v2");
    assert_eq!(
        config.transcription_replacements().get("ui"),
        Some(&Some("UI".to_string()))
    );
}

#[test]
fn validate_accepts_supported_and_forced_models() {
    let config = Config::new_for_test(vec![], vec![], vec![], vec![]);
    assert!(config.validate().is_ok());

    let mut unknown = Config::new_for_test(vec![], vec![], vec![], vec![]);
    unknown.model = Some("somebody/else".to_string());
    assert_eq!(
        unknown.validate(),
        Err("Model 'somebody/else' is not in the list of supported models.".to_string())
    );
    unknown.force = true;
    assert!(unknown.validate().is_ok());
    unknown.force = false;
    unknown.model = None;
    assert!(unknown.validate().is_ok());
}

#[test]
fn new_for_test_has_plain_values() {
    let config = Config::new_for_test(
        vec!["F1".to_string()],
        vec!["F2".to_string()],
        vec!["F3".to_string()],
        vec!["F4".to_string()],
    );
    assert_eq!(config.start_keys, vec!["F1"]);
    assert_eq!(config.pause_keys, vec!["F4"]);
    assert_eq!(config.shortcut_resolution_delay_ms, Some(50));
    assert_eq!(config.sample_rate, 48000);
    assert_eq!(config.initial_buffer_seconds, 15);
    assert!(config.transcription_replacements().is_empty());
    assert_eq!(config.model_name(), "mlx-community/parakeet-tdt-0.6b-v3");
    assert!(!config.realtime);
}
