use para_speak::audio_error::AudioError;
use para_speak::recorder::{
    pause_result, reply_timeout_ms, resume_result, snapshot_result, start_result, stop_result,
    AudioData, Awaiting, Command, Directive, RecorderState, Response, COMMAND_QUEUE_DEPTH,
};
use para_speak::DynamicBuffer;
use std::sync::Arc;

fn reply(d: Directive) -> Response {
    match d {
        Directive::Respond(r) => r,
        other => panic!("expected a reply, got {:?}", other),
    }
}

fn error_text(r: Response) -> String {
    match r {
        Response::Error(e) => e.message(),
        other => panic!("expected an error, got {:?}", other),
    }
}

fn start(state: &mut RecorderState, buffer: &mut DynamicBuffer, now: u64) {
    match state.handle_command(Command::StartRecording, buffer, now) {
        Directive::OpenStream { wait_ms } => assert_eq!(wait_ms, 0),
        other => panic!("expected to open the stream, got {:?}", other),
    }
    assert_eq!(state.awaiting(), Awaiting::StartStream { retried: false });
    match reply(state.stream_opened(Ok(()), now)) {
        Response::Started => {}
        other => panic!("expected Started, got {:?}", other),
    }
}

#[test]
fn audio_round_trip_through_pause_and_resume() {
    let mut buffer = DynamicBuffer::new(48000, 15);
    let mut state = RecorderState::new(48000);
    assert!(!state.is_recording() && !state.is_paused());

    buffer.write(&[9, 9, 9]);
    start(&mut state, &mut buffer, 1_000);
    assert!(state.is_recording() && state.is_streaming());
    assert_eq!(buffer.len(), 0);

    // ten milliseconds of silence at 48 kHz, 16 bit mono
    let first = vec![0u8; 960];
    buffer.write(&first);
    let paused = match reply(state.handle_command(Command::PauseRecording, &mut buffer, 1_010)) {
        Response::Paused(data) => data,
        other => panic!("expected Paused, got {:?}", other),
    };
    assert_eq!(paused.samples.len(), 960);
    assert_eq!(paused.sample_rate, 48000);
    assert_eq!(paused.channels, 1);
    assert_eq!(paused.duration_ms, 10);
    assert!(!state.is_recording() && state.is_paused() && !state.is_streaming());
    assert_eq!(buffer.len(), 0);

    match state.handle_command(Command::ResumeRecording, &mut buffer, 1_020) {
        Directive::OpenStream { wait_ms: 0 } => {}
        other => panic!("expected to open the stream, got {:?}", other),
    }
    match reply(state.stream_opened(Ok(()), 1_021)) {
        Response::Resumed => {}
        other => panic!("expected Resumed, got {:?}", other),
    }
    assert!(state.is_recording() && !state.is_paused());

    let second = vec![1u8; 960];
    buffer.write(&second);
    match state.handle_command(Command::StopRecording, &mut buffer, 1_030) {
        Directive::Flush { wait_ms } => assert_eq!(wait_ms, 500),
        other => panic!("expected a flush, got {:?}", other),
    }
    let tail = vec![2u8; 4];
    buffer.write(&tail);
    let stopped = match state.flushed(&mut buffer, 1_530) {
        Response::Stopped(data) => data,
        other => panic!("expected Stopped, got {:?}", other),
    };
    let mut expected = first.clone();
    expected.extend_from_slice(&second);
    expected.extend_from_slice(&tail);
    assert_eq!(*stopped.samples, expected);
    assert_eq!(stopped.samples.len(), 1924);
    assert_eq!(stopped.duration_ms, 530);
    assert_eq!(stopped.sample_rate, 48000);
    assert_eq!(stopped.channels, 1);
    assert!(!state.is_recording() && !state.is_paused() && !state.is_streaming());
    assert_eq!(buffer.len(), 0);
    assert_eq!(state.awaiting(), Awaiting::Nothing);
}

#[test]
fn state_errors_are_reported() {
    let mut buffer = DynamicBuffer::with_capacity(64);
    let mut state = RecorderState::new(48000);
    assert_eq!(
        error_text(reply(state.handle_command(Command::StopRecording, &mut buffer, 0))),
        "Recording not active"
    );
    assert_eq!(
        error_text(reply(state.handle_command(Command::PauseRecording, &mut buffer, 0))),
        "Recording not active"
    );
    assert_eq!(
        error_text(reply(state.handle_command(Command::ResumeRecording, &mut buffer, 0))),
        "Recording not paused"
    );
    start(&mut state, &mut buffer, 5);
    assert_eq!(
        error_text(reply(state.handle_command(Command::StartRecording, &mut buffer, 6))),
        "Recording already in progress"
    );
    assert_eq!(
        error_text(reply(state.handle_command(Command::ResumeRecording, &mut buffer, 6))),
        "Recording not paused"
    );
    // the worker goes on serving
    buffer.write(&[1, 2]);
    match reply(state.handle_command(Command::GetBufferSnapshot, &mut buffer, 7)) {
        Response::BufferSnapshot(bytes) => assert_eq!(bytes, vec![1, 2]),
        other => panic!("expected a snapshot, got {:?}", other),
    }
    assert_eq!(buffer.len(), 2);
}

#[test]
fn a_pause_while_paused_is_not_recording() {
    let mut buffer = DynamicBuffer::with_capacity(64);
    let mut state = RecorderState::new(48000);
    start(&mut state, &mut buffer, 0);
    reply(state.handle_command(Command::PauseRecording, &mut buffer, 1));
    assert_eq!(
        error_text(reply(state.handle_command(Command::PauseRecording, &mut buffer, 2))),
        "Recording not active"
    );
}

#[test]
fn a_snapshot_without_a_stream_is_empty() {
    let mut buffer = DynamicBuffer::with_capacity(64);
    let mut state = RecorderState::new(48000);
    buffer.write(&[1, 2, 3]);
    match reply(state.handle_command(Command::GetBufferSnapshot, &mut buffer, 0)) {
        Response::BufferSnapshot(bytes) => assert!(bytes.is_empty()),
        other => panic!("expected a snapshot, got {:?}", other),
    }
}

#[test]
fn a_stop_while_paused_returns_the_segments() {
    let mut buffer = DynamicBuffer::with_capacity(64);
    let mut state = RecorderState::new(16000);
    start(&mut state, &mut buffer, 100);
    buffer.write(&[1, 2, 3]);
    reply(state.handle_command(Command::PauseRecording, &mut buffer, 150));
    // bytes that reach the buffer while paused are not part of the recording
    buffer.write(&[7, 7]);
    match state.handle_command(Command::StopRecording, &mut buffer, 200) {
        Directive::Flush { wait_ms: 500 } => {}
        other => panic!("expected a flush, got {:?}", other),
    }
    match state.flushed(&mut buffer, 700) {
        Response::Stopped(data) => {
            assert_eq!(*data.samples, vec![1, 2, 3]);
            assert_eq!(data.duration_ms, 600);
            assert_eq!(data.sample_rate, 16000);
        }
        other => panic!("expected Stopped, got {:?}", other),
    }
    assert_eq!(buffer.len(), 0);
}

#[test]
fn building_the_stream_is_tried_twice() {
    let mut buffer = DynamicBuffer::with_capacity(64);
    let mut state = RecorderState::new(48000);
    state.handle_command(Command::StartRecording, &mut buffer, 0);
    match state.stream_opened(Err(AudioError::BuildStreamError("busy".to_string())), 1) {
        Directive::OpenStream { wait_ms } => assert_eq!(wait_ms, 100),
        other => panic!("expected a retry, got {:?}", other),
    }
    assert_eq!(state.awaiting(), Awaiting::StartStream { retried: true });
    assert_eq!(
        error_text(reply(
            state.stream_opened(Err(AudioError::BuildStreamError("busy".to_string())), 2)
        )),
        "Build stream error: busy"
    );
    assert_eq!(state.awaiting(), Awaiting::Nothing);
    assert!(!state.is_recording());
    // the worker is usable afterwards
    start(&mut state, &mut buffer, 3);
    assert!(state.is_recording());
}

#[test]
fn a_missing_device_is_not_retried() {
    let mut buffer = DynamicBuffer::with_capacity(64);
    let mut state = RecorderState::new(48000);
    state.handle_command(Command::StartRecording, &mut buffer, 0);
    assert_eq!(
        error_text(reply(state.stream_opened(Err(AudioError::NoInputDevice), 1))),
        "No audio input device available"
    );
    start(&mut state, &mut buffer, 2);
    reply(state.handle_command(Command::PauseRecording, &mut buffer, 3));
    state.handle_command(Command::ResumeRecording, &mut buffer, 4);
    assert_eq!(
        error_text(reply(
            state.stream_opened(Err(AudioError::PlayStreamError("no".to_string())), 5)
        )),
        "Play stream error: no"
    );
    assert!(state.is_paused());
}

#[test]
fn commands_wait_for_the_one_in_progress() {
    let mut buffer = DynamicBuffer::with_capacity(64);
    let mut state = RecorderState::new(48000);
    state.handle_command(Command::StartRecording, &mut buffer, 0);
    assert_eq!(
        error_text(reply(state.handle_command(Command::StopRecording, &mut buffer, 1))),
        "Recording state error: Previous command still in progress"
    );
    assert_eq!(
        error_text(state.flushed(&mut buffer, 1)),
        "Recording state error: No command is waiting for this"
    );
    reply(state.stream_opened(Ok(()), 2));
    assert_eq!(
        error_text(reply(state.stream_opened(Ok(()), 3))),
        "Recording state error: No command is waiting for this"
    );
}

#[test]
fn shutdown_clears_the_flags_and_ends_the_loop() {
    let mut buffer = DynamicBuffer::with_capacity(64);
    let mut state = RecorderState::new(48000);
    start(&mut state, &mut buffer, 0);
    match state.handle_command(Command::Shutdown, &mut buffer, 1) {
        Directive::Exit => {}
        other => panic!("expected Exit, got {:?}", other),
    }
    assert!(!state.is_recording() && !state.is_paused());
}

#[test]
fn a_start_while_paused_begins_anew() {
    let mut buffer = DynamicBuffer::with_capacity(64);
    let mut state = RecorderState::new(48000);
    start(&mut state, &mut buffer, 0);
    buffer.write(&[1, 2, 3]);
    reply(state.handle_command(Command::PauseRecording, &mut buffer, 1));
    start(&mut state, &mut buffer, 10);
    assert!(state.is_recording() && !state.is_paused());
    buffer.write(&[4]);
    state.handle_command(Command::StopRecording, &mut buffer, 20);
    match state.flushed(&mut buffer, 520) {
        Response::Stopped(data) => {
            assert_eq!(*data.samples, vec![4]);
            assert_eq!(data.duration_ms, 510);
        }
        other => panic!("expected Stopped, got {:?}", other),
    }
}

fn data() -> AudioData {
    AudioData { samples: Arc::new(vec![1, 2]), sample_rate: 48000, channels: 1, duration_ms: 3 }
}

#[test]
fn replies_are_read_for_the_command_sent() {
    assert!(start_result(Some(Response::Started)).is_ok());
    assert_eq!(
        start_result(None).unwrap_err().message(),
        "Thread communication failed"
    );
    assert_eq!(
        start_result(Some(Response::Resumed)).unwrap_err().message(),
        "Recording state error: Unexpected response"
    );
    assert_eq!(
        start_result(Some(Response::Error(AudioError::AlreadyRecording))).unwrap_err().message(),
        "Recording already in progress"
    );
    assert_eq!(*stop_result(Some(Response::Stopped(data()))).unwrap().samples, vec![1, 2]);
    assert_eq!(
        stop_result(Some(Response::Paused(data()))).unwrap_err().message(),
        "Recording state error: Unexpected response"
    );
    assert_eq!(pause_result(Some(Response::Paused(data()))).unwrap().duration_ms, 3);
    assert_eq!(
        pause_result(Some(Response::Error(AudioError::NotRecording))).unwrap_err().message(),
        "Recording not active"
    );
    assert!(resume_result(Some(Response::Resumed)).is_ok());
    assert_eq!(
        resume_result(Some(Response::Error(AudioError::NotPaused))).unwrap_err().message(),
        "Recording not paused"
    );
    assert_eq!(snapshot_result(Some(Response::BufferSnapshot(vec![5]))).unwrap(), vec![5]);
    assert_eq!(
        snapshot_result(None).unwrap_err().message(),
        "Thread communication failed"
    );
    assert_eq!(reply_timeout_ms(Command::GetBufferSnapshot), 1000);
    assert_eq!(reply_timeout_ms(Command::StartRecording), 5000);
    assert_eq!(reply_timeout_ms(Command::Shutdown), 5000);
    assert_eq!(COMMAND_QUEUE_DEPTH, 10);
}

#[test]
fn every_audio_error_has_its_text() {
    let with_detail = |e: AudioError| e.message();
    assert_eq!(with_detail(AudioError::DeviceError("x".into())), "Audio device error: x");
    assert_eq!(with_detail(AudioError::StreamError("x".into())), "Stream error: x");
    assert_eq!(
        with_detail(AudioError::DefaultStreamConfigError("x".into())),
        "Default stream config error: x"
    );
    assert_eq!(
        with_detail(AudioError::UnsupportedFormat("U8".into())),
        "Unsupported sample format: U8"
    );
    assert_eq!(with_detail(AudioError::ChannelError("x".into())), "Channel communication error: x");
    assert_eq!(with_detail(AudioError::IoError("x".into())), "File I/O error: x");
    assert_eq!(with_detail(AudioError::WavError("x".into())), "WAV file error: x");
    assert_eq!(with_detail(AudioError::NoOutputDevice), "No audio output device available");
    assert_eq!(with_detail(AudioError::AlreadyPaused), "Recording already paused");
}
