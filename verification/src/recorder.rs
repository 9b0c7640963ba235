//! The recorder's worker, as a state machine.
//!
//! The worker owns no device and never sleeps. Each function takes the state,
//! the capture buffer and what just happened, and answers with the next state
//! and a [`Directive`]: the reply to send, or the outside work that has to be
//! done before the command can finish (open the input stream, wait for the
//! last callback to land). Whoever drives the worker performs the directive
//! and reports back through [`RecorderState::stream_opened`] or
//! [`RecorderState::flushed`].

use crate::audio_error::{AudioError, AudioErrorModel};
use crate::bytes::{append_bytes, chunk_views, concat_all, concat_chunks, lemma_concat_push};
use crate::dynamic_buffer::DynamicBuffer;
use std::sync::Arc;
use vstd::prelude::*;
use vstd::string::*;

verus! {

/// Captured audio is always mono.
pub const CHANNELS: u16 = 1;

/// How long a stop waits for the device's last callback, in milliseconds.
pub const FLUSH_WAIT_MS: u64 = 500;

/// How long to wait before the one retry of opening the stream.
pub const RETRY_WAIT_MS: u64 = 100;

/// How long a caller waits for the reply to a lifecycle command.
pub const LIFECYCLE_TIMEOUT_MS: u64 = 5000;

/// How long a caller waits for a buffer snapshot.
pub const SNAPSHOT_TIMEOUT_MS: u64 = 1000;

/// The depth of the command and reply channels.
pub const COMMAND_QUEUE_DEPTH: usize = 10;

/// The result of a stop or a pause: 16-bit little-endian PCM.
#[derive(Debug)]
pub struct AudioData {
    pub samples: Arc<Vec<u8>>,
    pub sample_rate: u32,
    pub channels: u16,
    /// Time on the clock between start and the stop or pause.
    pub duration_ms: u64,
}

/// The mathematical content of an [`AudioData`].
pub struct AudioModel {
    pub samples: Seq<u8>,
    pub sample_rate: u32,
    pub channels: u16,
    pub duration_ms: u64,
}

impl View for AudioData {
    type V = AudioModel;

    open spec fn view(&self) -> AudioModel {
        AudioModel {
            samples: self.samples@,
            sample_rate: self.sample_rate,
            channels: self.channels,
            duration_ms: self.duration_ms,
        }
    }
}

/// A request to the worker.
#[derive(Clone, Copy, Debug, PartialEq, Eq, Structural)]
pub enum Command {
    StartRecording,
    StopRecording,
    PauseRecording,
    ResumeRecording,
    GetBufferSnapshot,
    Shutdown,
}

/// The worker's reply to a command.
#[derive(Debug)]
pub enum Response {
    Started,
    Stopped(AudioData),
    Paused(AudioData),
    Resumed,
    BufferSnapshot(Vec<u8>),
    Error(AudioError),
}

/// The mathematical content of a [`Response`].
pub enum ReplyModel {
    Started,
    Stopped(AudioModel),
    Paused(AudioModel),
    Resumed,
    BufferSnapshot(Seq<u8>),
    Error(AudioErrorModel),
}

impl View for Response {
    type V = ReplyModel;

    open spec fn view(&self) -> ReplyModel {
        match *self {
            Response::Started => ReplyModel::Started,
            Response::Stopped(d) => ReplyModel::Stopped(d@),
            Response::Paused(d) => ReplyModel::Paused(d@),
            Response::Resumed => ReplyModel::Resumed,
            Response::BufferSnapshot(b) => ReplyModel::BufferSnapshot(b@),
            Response::Error(e) => ReplyModel::Error(e@),
        }
    }
}

/// What the driver of the worker has to do next.
#[derive(Debug)]
pub enum Directive {
    /// Send this reply; the command is finished.
    Respond(Response),
    /// Wait `wait_ms`, open and start the input stream, then report the
    /// outcome with `stream_opened`.
    OpenStream { wait_ms: u64 },
    /// Wait `wait_ms` with the stream still running, then call `flushed`.
    Flush { wait_ms: u64 },
    /// Leave the worker loop without a reply.
    Exit,
}

/// The mathematical content of a [`Directive`].
pub enum DirectiveModel {
    Respond(ReplyModel),
    OpenStream { wait_ms: u64 },
    Flush { wait_ms: u64 },
    Exit,
}

impl View for Directive {
    type V = DirectiveModel;

    open spec fn view(&self) -> DirectiveModel {
        match *self {
            Directive::Respond(r) => DirectiveModel::Respond(r@),
            Directive::OpenStream { wait_ms } => DirectiveModel::OpenStream { wait_ms },
            Directive::Flush { wait_ms } => DirectiveModel::Flush { wait_ms },
            Directive::Exit => DirectiveModel::Exit,
        }
    }
}

/// The outside work that a command in progress is waiting for.
#[derive(Clone, Copy, Debug, PartialEq, Eq, Structural)]
pub enum Awaiting {
    Nothing,
    /// A start waits for the stream; `retried` once the first attempt failed.
    StartStream { retried: bool },
    /// A resume waits for the stream.
    ResumeStream { retried: bool },
    /// A stop waits for the flush.
    Flush,
}

/// The worker's state.
pub struct RecorderState {
    streaming: bool,
    paused: bool,
    segments: Vec<Vec<u8>>,
    start_time: Option<u64>,
    awaiting: Awaiting,
    recording_flag: bool,
    paused_flag: bool,
    sample_rate: u32,
}

/// The mathematical content of a [`RecorderState`].
pub struct RecorderModel {
    /// An input stream is open and its callback feeds the capture buffer.
    pub streaming: bool,
    pub paused: bool,
    /// The bytes of each interval that a pause ended, oldest first.
    pub segments: Seq<Seq<u8>>,
    pub start_time: Option<u64>,
    pub awaiting: Awaiting,
    /// The flag that `is_recording` reports.
    pub recording_flag: bool,
    /// The flag that `is_paused` reports.
    pub paused_flag: bool,
    pub sample_rate: u32,
}

impl View for RecorderState {
    type V = RecorderModel;

    closed spec fn view(&self) -> RecorderModel {
        RecorderModel {
            streaming: self.streaming,
            paused: self.paused,
            segments: chunk_views(self.segments@),
            start_time: self.start_time,
            awaiting: self.awaiting,
            recording_flag: self.recording_flag,
            paused_flag: self.paused_flag,
            sample_rate: self.sample_rate,
        }
    }
}

/// The state of a worker that has not recorded yet.
pub open spec fn initial_model(sample_rate: u32) -> RecorderModel {
    RecorderModel {
        streaming: false,
        paused: false,
        segments: Seq::empty(),
        start_time: None,
        awaiting: Awaiting::Nothing,
        recording_flag: false,
        paused_flag: false,
        sample_rate,
    }
}

/// Milliseconds from `start` to `now`; zero without a start or when the clock
/// reads earlier than the start.
pub open spec fn elapsed_ms(start: Option<u64>, now: u64) -> u64 {
    match start {
        Some(t) => if now >= t {
            (now - t) as u64
        } else {
            0
        },
        None => 0,
    }
}

/// The reply for a command that arrives while another waits for outside work.
pub open spec fn busy_reply() -> ReplyModel {
    ReplyModel::Error(AudioErrorModel::StateError("Previous command still in progress"@))
}

/// The reply to a report that no command was waiting for.
pub open spec fn unexpected_report_reply() -> ReplyModel {
    ReplyModel::Error(AudioErrorModel::StateError("No command is waiting for this"@))
}

/// Whether opening the stream is worth one more attempt after this failure:
/// the stream could not be built for the device.
pub open spec fn is_construction_failure(e: AudioErrorModel) -> bool {
    e is BuildStreamError || e is UnsupportedFormat
}

/// State, capture buffer and directive after a step.
pub struct Transition {
    pub next: RecorderModel,
    pub buffer: Seq<u8>,
    pub directive: DirectiveModel,
}

/// What a command does, given the bytes in the capture buffer.
pub open spec fn command_transition(
    m: RecorderModel,
    cmd: Command,
    buffer: Seq<u8>,
    now: u64,
) -> Transition {
    if m.awaiting != Awaiting::Nothing {
        Transition { next: m, buffer, directive: DirectiveModel::Respond(busy_reply()) }
    } else {
        match cmd {
            Command::StartRecording => if m.streaming {
                Transition {
                    next: m,
                    buffer,
                    directive: DirectiveModel::Respond(
                        ReplyModel::Error(AudioErrorModel::AlreadyRecording),
                    ),
                }
            } else {
                Transition {
                    next: RecorderModel {
                        segments: Seq::empty(),
                        awaiting: Awaiting::StartStream { retried: false },
                        ..m
                    },
                    buffer: Seq::empty(),
                    directive: DirectiveModel::OpenStream { wait_ms: 0 },
                }
            },
            Command::StopRecording => if !m.streaming && !m.paused {
                Transition {
                    next: m,
                    buffer,
                    directive: DirectiveModel::Respond(
                        ReplyModel::Error(AudioErrorModel::NotRecording),
                    ),
                }
            } else {
                Transition {
                    next: RecorderModel { awaiting: Awaiting::Flush, ..m },
                    buffer,
                    directive: DirectiveModel::Flush { wait_ms: FLUSH_WAIT_MS },
                }
            },
            Command::PauseRecording => if !m.streaming {
                Transition {
                    next: m,
                    buffer,
                    directive: DirectiveModel::Respond(
                        ReplyModel::Error(AudioErrorModel::NotRecording),
                    ),
                }
            } else if m.paused {
                Transition {
                    next: m,
                    buffer,
                    directive: DirectiveModel::Respond(
                        ReplyModel::Error(AudioErrorModel::AlreadyPaused),
                    ),
                }
            } else {
                Transition {
                    next: RecorderModel {
                        streaming: false,
                        paused: true,
                        segments: m.segments.push(buffer),
                        recording_flag: false,
                        paused_flag: true,
                        ..m
                    },
                    buffer: Seq::empty(),
                    directive: DirectiveModel::Respond(
                        ReplyModel::Paused(
                            AudioModel {
                                samples: buffer,
                                sample_rate: m.sample_rate,
                                channels: CHANNELS,
                                duration_ms: elapsed_ms(m.start_time, now),
                            },
                        ),
                    ),
                }
            },
            Command::ResumeRecording => if !m.paused {
                Transition {
                    next: m,
                    buffer,
                    directive: DirectiveModel::Respond(
                        ReplyModel::Error(AudioErrorModel::NotPaused),
                    ),
                }
            } else {
                Transition {
                    next: RecorderModel {
                        awaiting: Awaiting::ResumeStream { retried: false },
                        ..m
                    },
                    buffer,
                    directive: DirectiveModel::OpenStream { wait_ms: 0 },
                }
            },
            Command::GetBufferSnapshot => Transition {
                next: m,
                buffer,
                directive: DirectiveModel::Respond(
                    ReplyModel::BufferSnapshot(
                        if m.streaming {
                            buffer
                        } else {
                            Seq::empty()
                        },
                    ),
                ),
            },
            Command::Shutdown => Transition {
                next: RecorderModel { recording_flag: false, paused_flag: false, ..m },
                buffer,
                directive: DirectiveModel::Exit,
            },
        }
    }
}

/// What the report on opening the stream does: `failure` is `None` where the
/// stream runs. A stream that could not be built is tried once more.
pub open spec fn stream_transition(
    m: RecorderModel,
    failure: Option<AudioErrorModel>,
    now: u64,
) -> (RecorderModel, DirectiveModel) {
    match m.awaiting {
        Awaiting::StartStream { retried } => match failure {
            None => (
                RecorderModel {
                    streaming: true,
                    paused: false,
                    start_time: Some(now),
                    awaiting: Awaiting::Nothing,
                    recording_flag: true,
                    paused_flag: false,
                    ..m
                },
                DirectiveModel::Respond(ReplyModel::Started),
            ),
            Some(e) => if !retried && is_construction_failure(e) {
                (
                    RecorderModel { awaiting: Awaiting::StartStream { retried: true }, ..m },
                    DirectiveModel::OpenStream { wait_ms: RETRY_WAIT_MS },
                )
            } else {
                (
                    RecorderModel { awaiting: Awaiting::Nothing, ..m },
                    DirectiveModel::Respond(ReplyModel::Error(e)),
                )
            },
        },
        Awaiting::ResumeStream { retried } => match failure {
            None => (
                RecorderModel {
                    streaming: true,
                    paused: false,
                    awaiting: Awaiting::Nothing,
                    recording_flag: true,
                    paused_flag: false,
                    ..m
                },
                DirectiveModel::Respond(ReplyModel::Resumed),
            ),
            Some(e) => if !retried && is_construction_failure(e) {
                (
                    RecorderModel { awaiting: Awaiting::ResumeStream { retried: true }, ..m },
                    DirectiveModel::OpenStream { wait_ms: RETRY_WAIT_MS },
                )
            } else {
                (
                    RecorderModel { awaiting: Awaiting::Nothing, ..m },
                    DirectiveModel::Respond(ReplyModel::Error(e)),
                )
            },
        },
        _ => (m, DirectiveModel::Respond(unexpected_report_reply())),
    }
}

/// What the end of the flush wait does: the stop completes with every paused
/// segment in order, followed by what the buffer holds if a stream was open.
pub open spec fn flush_transition(m: RecorderModel, buffer: Seq<u8>, now: u64) -> (
    RecorderModel,
    Seq<u8>,
    ReplyModel,
) {
    if m.awaiting != Awaiting::Flush {
        (m, buffer, unexpected_report_reply())
    } else {
        (
            RecorderModel {
                streaming: false,
                paused: false,
                segments: Seq::empty(),
                start_time: None,
                awaiting: Awaiting::Nothing,
                recording_flag: false,
                paused_flag: false,
                ..m
            },
            Seq::empty(),
            ReplyModel::Stopped(
                AudioModel {
                    samples: concat_all(m.segments) + (if m.streaming {
                        buffer
                    } else {
                        Seq::empty()
                    }),
                    sample_rate: m.sample_rate,
                    channels: CHANNELS,
                    duration_ms: elapsed_ms(m.start_time, now),
                },
            ),
        )
    }
}

/// The failure that a report on the stream carries, if any.
pub open spec fn failure_of(outcome: Result<(), AudioError>) -> Option<AudioErrorModel> {
    match outcome {
        Ok(_) => None,
        Err(e) => Some(e@),
    }
}

fn elapsed(start: Option<u64>, now: u64) -> (d: u64)
    ensures
        d == elapsed_ms(start, now),
{
    match start {
        Some(t) => if now >= t {
            now - t
        } else {
            0
        },
        None => 0,
    }
}

fn error_reply(e: AudioError) -> (d: Directive)
    ensures
        d@ == DirectiveModel::Respond(ReplyModel::Error(e@)),
{
    Directive::Respond(Response::Error(e))
}

fn can_retry(e: &AudioError) -> (b: bool)
    ensures
        b == is_construction_failure(e@),
{
    match e {
        AudioError::BuildStreamError(_) => true,
        AudioError::UnsupportedFormat(_) => true,
        _ => false,
    }
}

/// Lifecycle: start, pause, resume, stop.
///
/// From a worker that holds no stream and waits for nothing: a start whose
/// stream opens, `first` captured, a pause, a resume whose stream opens,
/// `second` captured, a stop, and `tail` captured during the flush wait. The
/// pause hands out exactly `first`; the stop hands out `first`, then `second`,
/// then `tail`, whatever the buffer held before the start; and the worker ends
/// as it began, with an empty buffer.
pub proof fn lemma_pause_resume_stop(
    m: RecorderModel,
    stale: Seq<u8>,
    first: Seq<u8>,
    second: Seq<u8>,
    tail: Seq<u8>,
    clock: Seq<u64>,
)
    requires
        m.awaiting == Awaiting::Nothing,
        !m.streaming,
        clock.len() == 6,
    ensures
        ({
            let start = command_transition(m, Command::StartRecording, stale, clock[0]);
            let started = stream_transition(start.next, None, clock[1]);
            let pause = command_transition(
                started.0,
                Command::PauseRecording,
                start.buffer + first,
                clock[2],
            );
            let resume = command_transition(
                pause.next,
                Command::ResumeRecording,
                pause.buffer,
                clock[3],
            );
            let resumed = stream_transition(resume.next, None, clock[4]);
            let stop = command_transition(
                resumed.0,
                Command::StopRecording,
                resume.buffer + second,
                clock[5],
            );
            let done = flush_transition(stop.next, stop.buffer + tail, clock[5]);
            &&& start.directive == DirectiveModel::OpenStream { wait_ms: 0 }
            &&& started.1 == DirectiveModel::Respond(ReplyModel::Started)
            &&& pause.directive == DirectiveModel::Respond(
                ReplyModel::Paused(
                    AudioModel {
                        samples: first,
                        sample_rate: m.sample_rate,
                        channels: CHANNELS,
                        duration_ms: elapsed_ms(Some(clock[1]), clock[2]),
                    },
                ),
            )
            &&& resume.directive == DirectiveModel::OpenStream { wait_ms: 0 }
            &&& resumed.1 == DirectiveModel::Respond(ReplyModel::Resumed)
            &&& stop.directive == DirectiveModel::Flush { wait_ms: FLUSH_WAIT_MS }
            &&& done.2 == ReplyModel::Stopped(
                AudioModel {
                    samples: first + second + tail,
                    sample_rate: m.sample_rate,
                    channels: CHANNELS,
                    duration_ms: elapsed_ms(Some(clock[1]), clock[5]),
                },
            )
            &&& done.1 == Seq::<u8>::empty()
            &&& done.0 == RecorderModel {
                segments: Seq::empty(),
                start_time: None,
                paused: false,
                recording_flag: false,
                paused_flag: false,
                ..m
            }
        }),
{
    let start = command_transition(m, Command::StartRecording, stale, clock[0]);
    let started = stream_transition(start.next, None, clock[1]);
    assert(start.buffer + first =~= first);
    let pause = command_transition(started.0, Command::PauseRecording, first, clock[2]);
    let resume = command_transition(pause.next, Command::ResumeRecording, pause.buffer, clock[3]);
    let resumed = stream_transition(resume.next, None, clock[4]);
    assert(resume.buffer + second =~= second);
    let stop = command_transition(resumed.0, Command::StopRecording, second, clock[5]);
    let done = flush_transition(stop.next, second + tail, clock[5]);
    let segments = Seq::<Seq<u8>>::empty().push(first);
    assert(pause.next.segments =~= segments);
    lemma_concat_push(Seq::<Seq<u8>>::empty(), first);
    assert(concat_all(segments) =~= first);
    assert(concat_all(segments) + (second + tail) =~= first + second + tail);
}

impl RecorderState {
    /// A worker that has not recorded yet.
    pub fn new(sample_rate: u32) -> (s: Self)
        ensures
            s@ == initial_model(sample_rate),
    {
        let s = RecorderState {
            streaming: false,
            paused: false,
            segments: Vec::new(),
            start_time: None,
            awaiting: Awaiting::Nothing,
            recording_flag: false,
            paused_flag: false,
            sample_rate,
        };
        assert(s@.segments =~= Seq::<Seq<u8>>::empty());
        s
    }

    /// The flag that tells callers a recording is running.
    pub fn is_recording(&self) -> (b: bool)
        ensures
            b == self@.recording_flag,
    {
        self.recording_flag
    }

    /// The flag that tells callers the recording is paused.
    pub fn is_paused(&self) -> (b: bool)
        ensures
            b == self@.paused_flag,
    {
        self.paused_flag
    }

    /// Whether the driver should hold an open input stream.
    pub fn is_streaming(&self) -> (b: bool)
        ensures
            b == self@.streaming,
    {
        self.streaming
    }

    /// The outside work that the command in progress waits for.
    pub fn awaiting(&self) -> (a: Awaiting)
        ensures
            a == self@.awaiting,
    {
        self.awaiting
    }

    /// Takes one command. `buffer` is the capture buffer, held exclusively for
    /// the call; `now` is the clock.
    pub fn handle_command(&mut self, cmd: Command, buffer: &mut DynamicBuffer, now: u64) -> (d:
        Directive)
        requires
            old(buffer).wf(),
        ensures
            final(buffer).wf(),
            final(self)@ == command_transition(old(self)@, cmd, old(buffer)@, now).next,
            final(buffer)@ == command_transition(old(self)@, cmd, old(buffer)@, now).buffer,
            d@ == command_transition(old(self)@, cmd, old(buffer)@, now).directive,
    {
        if self.awaiting != Awaiting::Nothing {
            return error_reply(
                AudioError::StateError(String::from_str("Previous command still in progress")),
            );
        }
        match cmd {
            Command::StartRecording => {
                if self.streaming {
                    return error_reply(AudioError::AlreadyRecording);
                }
                buffer.reset();
                self.segments = Vec::new();
                self.awaiting = Awaiting::StartStream { retried: false };
                assert(self@.segments =~= Seq::<Seq<u8>>::empty());
                Directive::OpenStream { wait_ms: 0 }
            },
            Command::StopRecording => {
                if !self.streaming && !self.paused {
                    return error_reply(AudioError::NotRecording);
                }
                self.awaiting = Awaiting::Flush;
                Directive::Flush { wait_ms: FLUSH_WAIT_MS }
            },
            Command::PauseRecording => {
                if !self.streaming {
                    return error_reply(AudioError::NotRecording);
                }
                if self.paused {
                    return error_reply(AudioError::AlreadyPaused);
                }
                let current = buffer.read_all();
                let duration_ms = elapsed(self.start_time, now);
                let mut kept: Vec<u8> = Vec::new();
                append_bytes(&mut kept, current.as_slice());
                assert(kept@ =~= current@);
                let ghost before = chunk_views(self.segments@);
                self.segments.push(kept);
                assert(chunk_views(self.segments@) =~= before.push(current@));
                self.streaming = false;
                self.paused = true;
                self.recording_flag = false;
                self.paused_flag = true;
                Directive::Respond(
                    Response::Paused(
                        AudioData {
                            samples: Arc::new(current),
                            sample_rate: self.sample_rate,
                            channels: CHANNELS,
                            duration_ms,
                        },
                    ),
                )
            },
            Command::ResumeRecording => {
                if !self.paused {
                    return error_reply(AudioError::NotPaused);
                }
                self.awaiting = Awaiting::ResumeStream { retried: false };
                Directive::OpenStream { wait_ms: 0 }
            },
            Command::GetBufferSnapshot => {
                let mut data: Vec<u8> = Vec::new();
                if self.streaming {
                    append_bytes(&mut data, buffer.get_data());
                    assert(data@ =~= buffer@);
                }
                Directive::Respond(Response::BufferSnapshot(data))
            },
            Command::Shutdown => {
                self.recording_flag = false;
                self.paused_flag = false;
                Directive::Exit
            },
        }
    }

    /// Takes the report on opening the stream: `Ok` where it runs, else the
    /// device's error.
    pub fn stream_opened(&mut self, outcome: Result<(), AudioError>, now: u64) -> (d: Directive)
        ensures
            final(self)@ == stream_transition(old(self)@, failure_of(outcome), now).0,
            d@ == stream_transition(old(self)@, failure_of(outcome), now).1,
    {
        match self.awaiting {
            Awaiting::StartStream { retried } => match outcome {
                Ok(_) => {
                    self.streaming = true;
                    self.paused = false;
                    self.start_time = Some(now);
                    self.awaiting = Awaiting::Nothing;
                    self.recording_flag = true;
                    self.paused_flag = false;
                    Directive::Respond(Response::Started)
                },
                Err(e) => {
                    if !retried && can_retry(&e) {
                        self.awaiting = Awaiting::StartStream { retried: true };
                        Directive::OpenStream { wait_ms: RETRY_WAIT_MS }
                    } else {
                        self.awaiting = Awaiting::Nothing;
                        error_reply(e)
                    }
                },
            },
            Awaiting::ResumeStream { retried } => match outcome {
                Ok(_) => {
                    self.streaming = true;
                    self.paused = false;
                    self.awaiting = Awaiting::Nothing;
                    self.recording_flag = true;
                    self.paused_flag = false;
                    Directive::Respond(Response::Resumed)
                },
                Err(e) => {
                    if !retried && can_retry(&e) {
                        self.awaiting = Awaiting::ResumeStream { retried: true };
                        Directive::OpenStream { wait_ms: RETRY_WAIT_MS }
                    } else {
                        self.awaiting = Awaiting::Nothing;
                        error_reply(e)
                    }
                },
            },
            _ => error_reply(
                AudioError::StateError(String::from_str("No command is waiting for this")),
            ),
        }
    }

    /// Completes a stop once the flush wait is over.
    pub fn flushed(&mut self, buffer: &mut DynamicBuffer, now: u64) -> (r: Response)
        requires
            old(buffer).wf(),
        ensures
            final(buffer).wf(),
            final(self)@ == flush_transition(old(self)@, old(buffer)@, now).0,
            final(buffer)@ == flush_transition(old(self)@, old(buffer)@, now).1,
            r@ == flush_transition(old(self)@, old(buffer)@, now).2,
    {
        if self.awaiting != Awaiting::Flush {
            return Response::Error(
                AudioError::StateError(String::from_str("No command is waiting for this")),
            );
        }
        let mut all = concat_chunks(&self.segments);
        if self.streaming {
            let current = buffer.read_all();
            append_bytes(&mut all, current.as_slice());
        }
        assert(all@ =~= concat_all(old(self)@.segments) + (if old(self)@.streaming {
            old(buffer)@
        } else {
            Seq::empty()
        }));
        let duration_ms = elapsed(self.start_time, now);
        self.streaming = false;
        self.paused = false;
        self.segments = Vec::new();
        self.start_time = None;
        self.awaiting = Awaiting::Nothing;
        self.recording_flag = false;
        self.paused_flag = false;
        buffer.reset();
        assert(self@.segments =~= Seq::<Seq<u8>>::empty());
        Response::Stopped(
            AudioData {
                samples: Arc::new(all),
                sample_rate: self.sample_rate,
                channels: CHANNELS,
                duration_ms,
            },
        )
    }
}

/// How long the caller of a command waits for its reply, in milliseconds.
pub fn reply_timeout_ms(cmd: Command) -> (t: u64)
    ensures
        t == if cmd == Command::GetBufferSnapshot {
            SNAPSHOT_TIMEOUT_MS
        } else {
            LIFECYCLE_TIMEOUT_MS
        },
{
    match cmd {
        Command::GetBufferSnapshot => SNAPSHOT_TIMEOUT_MS,
        _ => LIFECYCLE_TIMEOUT_MS,
    }
}

/// The error for a reply that does not answer the command sent.
pub open spec fn unexpected_response() -> AudioErrorModel {
    AudioErrorModel::StateError("Unexpected response"@)
}

fn unexpected() -> (e: AudioError)
    ensures
        e@ == unexpected_response(),
{
    AudioError::StateError(String::from_str("Unexpected response"))
}

/// What `start_recording` returns for the reply that came, `None` standing for
/// a reply that did not come in time.
pub fn start_result(reply: Option<Response>) -> (r: Result<(), AudioError>)
    ensures
        match reply {
            None => r matches Err(e) && e@ == AudioErrorModel::ThreadCommunicationFailed,
            Some(Response::Started) => r is Ok,
            Some(Response::Error(cause)) => r matches Err(e) && e@ == cause@,
            Some(_) => r matches Err(e) && e@ == unexpected_response(),
        },
{
    match reply {
        None => Err(AudioError::ThreadCommunicationFailed),
        Some(Response::Started) => Ok(()),
        Some(Response::Error(e)) => Err(e),
        Some(_) => Err(unexpected()),
    }
}

/// What `stop_recording` returns for the reply that came.
pub fn stop_result(reply: Option<Response>) -> (r: Result<AudioData, AudioError>)
    ensures
        match reply {
            None => r matches Err(e) && e@ == AudioErrorModel::ThreadCommunicationFailed,
            Some(Response::Stopped(data)) => r matches Ok(d) && d@ == data@,
            Some(Response::Error(cause)) => r matches Err(e) && e@ == cause@,
            Some(_) => r matches Err(e) && e@ == unexpected_response(),
        },
{
    match reply {
        None => Err(AudioError::ThreadCommunicationFailed),
        Some(Response::Stopped(data)) => Ok(data),
        Some(Response::Error(e)) => Err(e),
        Some(_) => Err(unexpected()),
    }
}

/// What `pause_recording` returns for the reply that came.
pub fn pause_result(reply: Option<Response>) -> (r: Result<AudioData, AudioError>)
    ensures
        match reply {
            None => r matches Err(e) && e@ == AudioErrorModel::ThreadCommunicationFailed,
            Some(Response::Paused(data)) => r matches Ok(d) && d@ == data@,
            Some(Response::Error(cause)) => r matches Err(e) && e@ == cause@,
            Some(_) => r matches Err(e) && e@ == unexpected_response(),
        },
{
    match reply {
        None => Err(AudioError::ThreadCommunicationFailed),
        Some(Response::Paused(data)) => Ok(data),
        Some(Response::Error(e)) => Err(e),
        Some(_) => Err(unexpected()),
    }
}

/// What `resume_recording` returns for the reply that came.
pub fn resume_result(reply: Option<Response>) -> (r: Result<(), AudioError>)
    ensures
        match reply {
            None => r matches Err(e) && e@ == AudioErrorModel::ThreadCommunicationFailed,
            Some(Response::Resumed) => r is Ok,
            Some(Response::Error(cause)) => r matches Err(e) && e@ == cause@,
            Some(_) => r matches Err(e) && e@ == unexpected_response(),
        },
{
    match reply {
        None => Err(AudioError::ThreadCommunicationFailed),
        Some(Response::Resumed) => Ok(()),
        Some(Response::Error(e)) => Err(e),
        Some(_) => Err(unexpected()),
    }
}

/// What `get_buffer_snapshot` returns for the reply that came.
pub fn snapshot_result(reply: Option<Response>) -> (r: Result<Vec<u8>, AudioError>)
    ensures
        match reply {
            None => r matches Err(e) && e@ == AudioErrorModel::ThreadCommunicationFailed,
            Some(Response::BufferSnapshot(data)) => r matches Ok(d) && d@ == data@,
            Some(Response::Error(cause)) => r matches Err(e) && e@ == cause@,
            Some(_) => r matches Err(e) && e@ == unexpected_response(),
        },
{
    match reply {
        None => Err(AudioError::ThreadCommunicationFailed),
        Some(Response::BufferSnapshot(data)) => Ok(data),
        Some(Response::Error(e)) => Err(e),
        Some(_) => Err(unexpected()),
    }
}

} // verus!
