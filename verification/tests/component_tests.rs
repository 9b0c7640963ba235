use para_speak::available_models;
use para_speak::component::LifecycleEvent;
use para_speak::feedback::{Delivery, Sound};
use para_speak::ml_error::TranscriptionError;
use para_speak::model_support::{
    get_default_model, get_model_info, get_model_profile, is_model_supported,
};
use para_speak::observer::{TranscriptionObserver, MIN_CHUNK_SIZE};
use para_speak::spotify::{DuckingStep, VolumeState};
use para_speak::{
    AudioComponent, ExecutionMode, RingBuffer, SpotifyComponent, SpotifyError,
    TranscriptionHandler, VolumeLevel,
};

#[test]
fn each_event_has_its_sound() {
    let audio = AudioComponent::new();
    assert_eq!(audio.name(), "Audio");
    assert_eq!(audio.execution_mode(), ExecutionMode::Parallel);
    assert_eq!(audio.sound_for(&LifecycleEvent::Start), Some(Sound::Start));
    assert_eq!(audio.sound_for(&LifecycleEvent::Resume), Some(Sound::Start));
    assert_eq!(audio.sound_for(&LifecycleEvent::Stop), Some(Sound::Stop));
    assert_eq!(audio.sound_for(&LifecycleEvent::Pause), Some(Sound::Stop));
    assert_eq!(audio.sound_for(&LifecycleEvent::Cancel), Some(Sound::Stop));
    assert_eq!(
        audio.sound_for(&LifecycleEvent::ProcessingComplete("x".to_string())),
        Some(Sound::Complete)
    );
    assert_eq!(audio.sound_for(&LifecycleEvent::ProcessingStart), None);
    assert_eq!(audio.sound_for(&LifecycleEvent::Error("x".to_string())), None);
}

#[test]
fn text_is_pasted_or_put_on_the_clipboard() {
    let handler = TranscriptionHandler::new();
    assert_eq!(handler.name(), "TranscriptionHandler");
    assert_eq!(handler.execution_mode(), ExecutionMode::Sequential);
    assert_eq!(handler.on_processing_complete("", true), Delivery::Nothing);
    assert_eq!(handler.on_processing_complete("", false), Delivery::Nothing);
    assert_eq!(handler.on_processing_complete("hi", true), Delivery::InsertAtCursor);
    assert_eq!(handler.on_processing_complete("hi", false), Delivery::SetClipboard);
}

fn set(step: DuckingStep) -> u8 {
    match step {
        DuckingStep::SetVolume(v) => v,
        other => panic!("expected to set the volume, got {:?}", other),
    }
}

fn done_ok(step: DuckingStep) {
    match step {
        DuckingStep::Done(Ok(())) => {}
        other => panic!("expected to be done, got {:?}", other),
    }
}

#[test]
fn ducking_goes_round_its_four_states() {
    let mut spotify = SpotifyComponent::new();
    assert_eq!(spotify.name(), "Spotify");
    assert_eq!(spotify.get_current_state(), VolumeState::Normal);
    match spotify.handle_volume_change(VolumeLevel::Reduced, None, Some(30)) {
        DuckingStep::ReadVolume => {}
        other => panic!("expected to read the volume, got {:?}", other),
    }
    assert_eq!(spotify.get_current_state(), VolumeState::Reducing);
    // a second request while reducing is skipped; a restore waits
    done_ok(spotify.handle_volume_change(VolumeLevel::Reduced, None, Some(30)));
    match spotify.handle_volume_change(VolumeLevel::Normal, None, Some(30)) {
        DuckingStep::Retry { wait_ms } => assert_eq!(wait_ms, 50),
        other => panic!("expected a retry, got {:?}", other),
    }
    assert_eq!(set(spotify.volume_read(Ok(80))), 50);
    assert!(spotify.volume_set(Ok(())).is_ok());
    assert_eq!(spotify.get_current_state(), VolumeState::Reduced);
    done_ok(spotify.handle_volume_change(VolumeLevel::Reduced, None, Some(30)));
    assert_eq!(set(spotify.handle_volume_change(VolumeLevel::Normal, None, Some(30))), 80);
    assert_eq!(spotify.get_current_state(), VolumeState::Restoring);
    done_ok(spotify.handle_volume_change(VolumeLevel::Normal, None, Some(30)));
    assert!(spotify.volume_set(Ok(())).is_ok());
    assert_eq!(spotify.get_current_state(), VolumeState::Normal);
    done_ok(spotify.handle_volume_change(VolumeLevel::Normal, None, Some(30)));
}

#[test]
fn ducking_targets() {
    let mut exact = SpotifyComponent::new();
    exact.handle_volume_change(VolumeLevel::Reduced, Some(15), None);
    assert_eq!(set(exact.volume_read(Ok(80))), 15);
    let mut floor = SpotifyComponent::new();
    floor.handle_volume_change(VolumeLevel::Reduced, None, Some(90));
    assert_eq!(set(floor.volume_read(Ok(80))), 0);
    let mut wide = SpotifyComponent::new();
    wide.handle_volume_change(VolumeLevel::Reduced, Some(300), None);
    assert_eq!(set(wide.volume_read(Ok(80))), 44);
}

#[test]
fn ducking_failures_take_the_change_back() {
    let mut spotify = SpotifyComponent::new();
    match spotify.handle_volume_change(VolumeLevel::Reduced, Some(10), Some(10)) {
        DuckingStep::Done(Err(SpotifyError::Config(text))) => assert_eq!(
            text,
            "spotify_recording_volume and spotify_reduce_by are mutually exclusive"
        ),
        other => panic!("unexpected {:?}", other),
    }
    done_ok(spotify.handle_volume_change(VolumeLevel::Reduced, None, None));
    assert_eq!(spotify.get_current_state(), VolumeState::Normal);
    spotify.handle_volume_change(VolumeLevel::Reduced, Some(10), None);
    match spotify.volume_read(Err(SpotifyError::Operation("gone".to_string()))) {
        DuckingStep::Done(Err(SpotifyError::Operation(text))) => assert_eq!(text, "gone"),
        other => panic!("unexpected {:?}", other),
    }
    assert_eq!(spotify.get_current_state(), VolumeState::Normal);
    spotify.handle_volume_change(VolumeLevel::Reduced, Some(10), None);
    assert_eq!(set(spotify.volume_read(Ok(60))), 10);
    assert!(spotify.volume_set(Err(SpotifyError::Lock)).is_err());
    assert_eq!(spotify.get_current_state(), VolumeState::Normal);
    match spotify.volume_read(Ok(1)) {
        DuckingStep::Done(Err(SpotifyError::Operation(text))) => {
            assert_eq!(text, "No volume change is under way")
        }
        other => panic!("unexpected {:?}", other),
    }
    assert_eq!(SpotifyComponent::level_for(&LifecycleEvent::Start), Some(VolumeLevel::Reduced));
    assert_eq!(SpotifyComponent::level_for(&LifecycleEvent::Pause), Some(VolumeLevel::Normal));
    assert_eq!(SpotifyComponent::level_for(&LifecycleEvent::Stop), None);
}

#[test]
fn the_observer_reads_the_ring_in_large_chunks() {
    let mut ring = RingBuffer::new(10, 48000);
    let mut observer = TranscriptionObserver::new(true, 48000);
    ring.write(&[1, 2, 3]);
    assert!(observer.on_start(&mut ring));
    assert!(observer.is_running());
    assert_eq!(ring.available_bytes(), 0);
    assert!(!observer.on_start(&mut ring));
    ring.write(&vec![0u8; MIN_CHUNK_SIZE - 1]);
    assert!(observer.poll(&mut ring).is_none());
    assert_eq!(ring.available_bytes(), MIN_CHUNK_SIZE - 1);
    ring.write(&[0]);
    assert!(observer.poll(&mut ring).is_none());
    assert_eq!(ring.available_bytes(), 0);
    // speech, then enough silence to complete the segment
    ring.write(&vec![200u8; 40_000]);
    assert!(observer.poll(&mut ring).is_none());
    ring.write(&vec![0u8; 100_000]);
    assert!(observer.poll(&mut ring).is_none());
    ring.write(&vec![0u8; 100_000]);
    let segment = observer.poll(&mut ring).unwrap();
    assert_eq!(segment.len(), 38_400 + 40_000 + 200_000);
    // what is left at the stop is handed out once
    ring.write(&vec![200u8; 40_000]);
    observer.poll(&mut ring);
    assert_eq!(observer.on_stop().unwrap().len(), 40_000);
    assert!(!observer.is_running());
    assert!(observer.on_stop().is_none());
}

#[test]
fn a_cancel_discards_and_a_disabled_observer_does_nothing() {
    let mut ring = RingBuffer::new(1, 48000);
    let mut observer = TranscriptionObserver::new(true, 48000);
    observer.on_start(&mut ring);
    ring.write(&vec![200u8; 40_000]);
    observer.poll(&mut ring);
    observer.on_cancel();
    assert!(!observer.is_running());
    assert!(observer.on_stop().is_none());

    let mut off = TranscriptionObserver::new(false, 48000);
    ring.write(&[1, 2, 3]);
    assert!(!off.on_start(&mut ring));
    assert!(!off.is_running());
    assert_eq!(ring.available_bytes(), 3);
    assert!(off.on_stop().is_none());
    off.on_cancel();
}

#[test]
fn models_are_known_by_name() {
    assert_eq!(get_default_model(), "mlx-community/parakeet-tdt-0.6b-v3");
    assert_eq!(available_models::get_default_model(), "mlx-community/parakeet-tdt-0.6b-v3");
    assert!(is_model_supported("mlx-community/parakeet-ctc-1.1b"));
    assert!(is_model_supported("nvidia/canary-1b-v2"));
    assert!(!is_model_supported("nvidia/canary"));
    assert!(available_models::is_model_supported("mlx-community/parakeet-tdt-1.1b"));
    assert!(available_models::is_model_supported("mlx-community/parakeet-ctc-0.6b"));
    assert!(!available_models::is_model_supported("nvidia/canary-1b-v2"));
    assert_eq!(get_model_profile("nvidia/canary-1b-v2"), Ok("canary"));
    assert_eq!(get_model_profile("mlx-community/parakeet-tdt-1.1b"), Ok("parakeet"));
    assert_eq!(
        get_model_profile("nope"),
        Err("Model 'nope' not found in supported models".to_string())
    );
    let info = get_model_info("mlx-community/parakeet-ctc-0.6b").unwrap();
    assert_eq!(info.name, "mlx-community/parakeet-ctc-0.6b");
    assert_eq!(
        info.required_files,
        vec!["config.json", "model.safetensors", "tokenizer.model", "tokenizer.vocab"]
    );
    assert_eq!(
        info.file_sizes,
        vec![
            ("config.json", 22393),
            ("model.safetensors", 2435504684),
            ("tokenizer.model", 259162),
            ("tokenizer.vocab", 11383),
        ]
    );
    let canary = get_model_info("nvidia/canary-1b-v2").unwrap();
    assert_eq!(canary.required_files, vec!["canary-1b-v2.nemo"]);
    assert_eq!(canary.file_sizes, vec![("canary-1b-v2.nemo", 6358958080)]);
    let first = get_model_info("mlx-community/parakeet-tdt-0.6b-v3").unwrap();
    assert_eq!(first.file_sizes[0], ("config.json", 244093));
    assert_eq!(first.file_sizes[1].1, 2508288736);
    assert_eq!(first.file_sizes[2].1, 360916);
    assert_eq!(first.file_sizes[3].1, 101024);
}

#[test]
fn transcription_errors_have_their_text() {
    assert_eq!(
        TranscriptionError::NotInitialized.message(),
        "Transcription engine not initialized"
    );
    assert_eq!(TranscriptionError::PythonError("x".into()).message(), "Python error: x");
    assert_eq!(TranscriptionError::ModelNotLoaded.message(), "Model not loaded");
    assert_eq!(TranscriptionError::EmptyAudioData.message(), "Empty audio data provided");
    assert_eq!(
        TranscriptionError::TranscriptionFailed("x".into()).message(),
        "Transcription failed: x"
    );
    assert_eq!(
        TranscriptionError::LockError("x".into()).message(),
        "Failed to lock transcription engine: x"
    );
    assert_eq!(
        TranscriptionError::InitializationError("x".into()).message(),
        "Initialization failed: x"
    );
    assert_eq!(
        TranscriptionError::ModelLoadingError("x".into()).message(),
        "Model loading failed: x"
    );
    assert_eq!(
        TranscriptionError::InvalidAudioFormat("x".into()).message(),
        "Invalid audio format or parameters: x"
    );
    assert_eq!(
        TranscriptionError::ServiceUnavailable("x".into()).message(),
        "Service temporarily unavailable: x"
    );
}
