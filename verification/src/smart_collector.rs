//! The smart collector: cuts a stream of audio chunks into speech segments
//! with a second of context before and two seconds of silence after.

use crate::bytes::{
    append_bytes, chunk_views, concat_all, concat_chunks, lemma_concat_push, total_bytes, total_len,
};
use vstd::prelude::*;

verus! {

/// Seconds of silence kept as context before speech.
pub const PRE_SPEECH_CONTEXT_SEC: usize = 1;

/// Seconds of silence after speech that complete a segment.
pub const POST_SPEECH_CONTEXT_SEC: usize = 2;

/// A 16-bit sample from its two bytes, low byte first.
pub open spec fn sample_of(low: u8, high: u8) -> int {
    let unsigned = low + 256 * high;
    if unsigned >= 32768 {
        unsigned - 65536
    } else {
        unsigned
    }
}

/// The sum of the squares of the first `n` samples of `chunk`.
pub open spec fn sum_of_squares(chunk: Seq<u8>, n: nat) -> nat
    decreases n,
{
    if n == 0 {
        0
    } else {
        let s = sample_of(chunk[2 * (n - 1)], chunk[2 * (n - 1) + 1]);
        sum_of_squares(chunk, (n - 1) as nat) + (s * s) as nat
    }
}

/// Whether a chunk is speech: its root mean square, with samples scaled to
/// the range from -1 to 1, is at least 0.04.
///
/// With `n` samples of 16 bits that is `sqrt(sum / n) / 32768 >= 1 / 25`, or
/// `625 * sum >= n * 32768 * 32768`. A chunk of less than one sample is
/// silence; a trailing odd byte is ignored.
pub open spec fn is_speech(chunk: Seq<u8>) -> bool {
    let n = chunk.len() / 2;
    n > 0 && 625 * sum_of_squares(chunk, n) >= n * 1073741824
}

/// The mean square of 16-bit samples is bounded.
pub proof fn lemma_sum_bound(chunk: Seq<u8>, n: nat)
    ensures
        sum_of_squares(chunk, n) <= n * 1073741824,
    decreases n,
{
    if n > 0 {
        lemma_sum_bound(chunk, (n - 1) as nat);
        let s = sample_of(chunk[2 * (n - 1)], chunk[2 * (n - 1) + 1]);
        assert(-32768 <= s < 32768);
        assert(0 <= s * s <= 1073741824) by (nonlinear_arith)
            requires
                -32768 <= s < 32768,
        ;
        assert(sum_of_squares(chunk, n) == sum_of_squares(chunk, (n - 1) as nat) + (s * s) as nat);
    }
}

/// Whether a chunk is speech.
pub fn detect_speech(chunk: &[u8]) -> (b: bool)
    ensures
        b == is_speech(chunk@),
{
    let n: usize = chunk.len() / 2;
    if n == 0 {
        return false;
    }
    let mut sum: u128 = 0;
    let mut i: usize = 0;
    while i < n
        invariant
            i <= n,
            n == chunk@.len() / 2,
            chunk@.len() <= usize::MAX,
            sum == sum_of_squares(chunk@, i as nat),
        decreases n - i,
    {
        proof {
            lemma_sum_bound(chunk@, i as nat);
        }
        assert(2 * i + 1 < chunk@.len());
        let unsigned: i64 = chunk[2 * i] as i64 + 256 * (chunk[2 * i + 1] as i64);
        let s: i64 = if unsigned >= 32768 {
            unsigned - 65536
        } else {
            unsigned
        };
        assert(-32768 <= s < 32768);
        assert(0 <= s * s <= 1073741824) by (nonlinear_arith)
            requires
                -32768 <= s < 32768,
        ;
        let square: i64 = s * s;
        sum = sum + square as u128;
        i += 1;
    }
    proof {
        lemma_sum_bound(chunk@, n as nat);
    }
    625 * sum >= (n as u128) * 1073741824
}

/// The mathematical content of a [`SmartCollector`].
pub struct CollectorModel {
    /// Silent chunks kept as context, oldest first.
    pub pre_speech: Seq<Seq<u8>>,
    pub pre_speech_max_bytes: nat,
    pub accumulated_speech: Seq<u8>,
    /// Silent chunks since the last speech, oldest first.
    pub post_speech: Seq<Seq<u8>>,
    pub post_speech_max_bytes: nat,
    pub speech_detected: bool,
    /// Whether silence has set in after speech.
    pub silence_started: bool,
}

/// The chunks with the oldest dropped until the rest is within `max` bytes.
pub open spec fn evicted(chunks: Seq<Seq<u8>>, max: nat) -> Seq<Seq<u8>>
    decreases chunks.len(),
{
    if chunks.len() > 0 && total_len(chunks) > max {
        evicted(chunks.drop_first(), max)
    } else {
        chunks
    }
}

/// The collector with nothing collected.
pub open spec fn cleared(m: CollectorModel) -> CollectorModel {
    CollectorModel {
        pre_speech: Seq::empty(),
        accumulated_speech: Seq::empty(),
        post_speech: Seq::empty(),
        speech_detected: false,
        silence_started: false,
        ..m
    }
}

/// The segment that the collector holds: context, speech, trailing silence.
pub open spec fn segment_of(m: CollectorModel) -> Seq<u8> {
    concat_all(m.pre_speech) + m.accumulated_speech + concat_all(m.post_speech)
}

/// Taking out what was collected: nothing, and no change, while no speech was
/// collected; else the segment, and the collector is cleared.
pub open spec fn extraction(m: CollectorModel) -> (CollectorModel, Option<Seq<u8>>) {
    if m.accumulated_speech.len() == 0 {
        (m, None)
    } else {
        (cleared(m), Some(segment_of(m)))
    }
}

/// The collector and the completed segment, if any, after a chunk that is
/// speech or is not.
pub open spec fn classified_step(m: CollectorModel, chunk: Seq<u8>, speech: bool) -> (
    CollectorModel,
    Option<Seq<u8>>,
) {
    if !m.speech_detected {
        if speech {
            (
                CollectorModel {
                    speech_detected: true,
                    accumulated_speech: m.accumulated_speech + chunk,
                    ..m
                },
                None,
            )
        } else {
            (
                CollectorModel {
                    pre_speech: evicted(m.pre_speech.push(chunk), m.pre_speech_max_bytes),
                    ..m
                },
                None,
            )
        }
    } else if speech {
        (
            CollectorModel {
                post_speech: if m.silence_started {
                    Seq::empty()
                } else {
                    m.post_speech
                },
                silence_started: false,
                accumulated_speech: m.accumulated_speech + chunk,
                ..m
            },
            None,
        )
    } else {
        let silent = CollectorModel {
            silence_started: true,
            post_speech: m.post_speech.push(chunk),
            ..m
        };
        if total_len(silent.post_speech) >= m.post_speech_max_bytes {
            extraction(silent)
        } else {
            (silent, None)
        }
    }
}

/// The collector and the completed segment, if any, after a chunk.
pub open spec fn collector_step(m: CollectorModel, chunk: Seq<u8>) -> (
    CollectorModel,
    Option<Seq<u8>>,
) {
    classified_step(m, chunk, is_speech(chunk))
}

/// A collector of speech segments.
pub struct SmartCollector {
    pre_speech_buffer: Vec<Vec<u8>>,
    pre_speech_buffer_max_bytes: usize,
    accumulated_speech: Vec<u8>,
    post_speech_buffer: Vec<Vec<u8>>,
    post_speech_buffer_max_bytes: usize,
    speech_detected: bool,
    silence_started: bool,
}

impl View for SmartCollector {
    type V = CollectorModel;

    closed spec fn view(&self) -> CollectorModel {
        CollectorModel {
            pre_speech: chunk_views(self.pre_speech_buffer@),
            pre_speech_max_bytes: self.pre_speech_buffer_max_bytes as nat,
            accumulated_speech: self.accumulated_speech@,
            post_speech: chunk_views(self.post_speech_buffer@),
            post_speech_max_bytes: self.post_speech_buffer_max_bytes as nat,
            speech_detected: self.speech_detected,
            silence_started: self.silence_started,
        }
    }
}

fn copy_bytes(data: &[u8]) -> (v: Vec<u8>)
    ensures
        v@ == data@,
{
    let mut v: Vec<u8> = Vec::new();
    append_bytes(&mut v, data);
    assert(v@ =~= data@);
    v
}

fn evict_oldest(chunks: &mut Vec<Vec<u8>>, max: usize)
    ensures
        chunk_views(final(chunks)@) == evicted(chunk_views(old(chunks)@), max as nat),
{
    let ghost start = chunk_views(chunks@);
    let mut done = false;
    while !done
        invariant
            evicted(chunk_views(chunks@), max as nat) == evicted(start, max as nat),
            done ==> chunks@.len() == 0 || total_len(chunk_views(chunks@)) <= max,
        decreases chunks@.len() + (if done { 0nat } else { 1nat }),
    {
        if chunks.len() == 0 {
            done = true;
        } else {
            let within = match total_bytes(chunks) {
                Some(total) => total <= max,
                None => false,
            };
            if within {
                done = true;
            } else {
                let ghost before = chunk_views(chunks@);
                chunks.remove(0);
                assert(chunk_views(chunks@) =~= before.drop_first());
            }
        }
    }
}

impl SmartCollector {
    /// An empty collector for 16-bit mono audio at `sample_rate`.
    pub fn new(sample_rate: u32) -> (c: Self)
        requires
            sample_rate * 2 * POST_SPEECH_CONTEXT_SEC <= usize::MAX,
        ensures
            c@ == (CollectorModel {
                pre_speech: Seq::empty(),
                pre_speech_max_bytes: (sample_rate * 2 * PRE_SPEECH_CONTEXT_SEC) as nat,
                accumulated_speech: Seq::empty(),
                post_speech: Seq::empty(),
                post_speech_max_bytes: (sample_rate * 2 * POST_SPEECH_CONTEXT_SEC) as nat,
                speech_detected: false,
                silence_started: false,
            }),
    {
        let bytes_per_second: usize = (sample_rate as usize) * 2;
        let c = SmartCollector {
            pre_speech_buffer: Vec::new(),
            pre_speech_buffer_max_bytes: bytes_per_second * PRE_SPEECH_CONTEXT_SEC,
            accumulated_speech: Vec::new(),
            post_speech_buffer: Vec::new(),
            post_speech_buffer_max_bytes: bytes_per_second * POST_SPEECH_CONTEXT_SEC,
            speech_detected: false,
            silence_started: false,
        };
        assert(c@.pre_speech =~= Seq::<Seq<u8>>::empty());
        assert(c@.post_speech =~= Seq::<Seq<u8>>::empty());
        c
    }

    /// Takes one chunk of 16-bit little-endian audio and hands back the
    /// segment that it completes, if it completes one.
    pub fn process_chunk(&mut self, audio_data: &[u8]) -> (segment: Option<Vec<u8>>)
        ensures
            final(self)@ == collector_step(old(self)@, audio_data@).0,
            match segment {
                Some(bytes) => collector_step(old(self)@, audio_data@).1 == Some(bytes@),
                None => collector_step(old(self)@, audio_data@).1 is None,
            },
    {
        let speech = detect_speech(audio_data);
        self.process_classified_chunk(audio_data, speech)
    }

    /// Takes one chunk that the caller has classified as speech or silence.
    pub fn process_classified_chunk(&mut self, audio_data: &[u8], speech: bool) -> (segment: Option<
        Vec<u8>,
    >)
        ensures
            final(self)@ == classified_step(old(self)@, audio_data@, speech).0,
            match segment {
                Some(bytes) => classified_step(old(self)@, audio_data@, speech).1 == Some(bytes@),
                None => classified_step(old(self)@, audio_data@, speech).1 is None,
            },
    {
        if !self.speech_detected {
            if speech {
                self.speech_detected = true;
                append_bytes(&mut self.accumulated_speech, audio_data);
            } else {
                let ghost before = chunk_views(self.pre_speech_buffer@);
                self.pre_speech_buffer.push(copy_bytes(audio_data));
                assert(chunk_views(self.pre_speech_buffer@) =~= before.push(audio_data@));
                evict_oldest(&mut self.pre_speech_buffer, self.pre_speech_buffer_max_bytes);
            }
            None
        } else if speech {
            if self.silence_started {
                self.post_speech_buffer.clear();
                self.silence_started = false;
                assert(chunk_views(self.post_speech_buffer@) =~= Seq::<Seq<u8>>::empty());
            }
            append_bytes(&mut self.accumulated_speech, audio_data);
            None
        } else {
            self.silence_started = true;
            let ghost before = chunk_views(self.post_speech_buffer@);
            self.post_speech_buffer.push(copy_bytes(audio_data));
            assert(chunk_views(self.post_speech_buffer@) =~= before.push(audio_data@));
            let complete = match total_bytes(&self.post_speech_buffer) {
                Some(total) => total >= self.post_speech_buffer_max_bytes,
                None => true,
            };
            if complete {
                self.extract_segment()
            } else {
                None
            }
        }
    }

    /// Discards everything collected.
    pub fn reset(&mut self)
        ensures
            final(self)@ == cleared(old(self)@),
    {
        self.pre_speech_buffer.clear();
        self.accumulated_speech.clear();
        self.post_speech_buffer.clear();
        self.speech_detected = false;
        self.silence_started = false;
        assert(self@.pre_speech =~= Seq::<Seq<u8>>::empty());
        assert(self@.post_speech =~= Seq::<Seq<u8>>::empty());
    }

    /// Takes out what was collected, though no silence has completed it: the
    /// context, the speech and the trailing silence, if any speech was
    /// collected.
    pub fn extract_final_segment(&mut self) -> (segment: Option<Vec<u8>>)
        ensures
            final(self)@ == extraction(old(self)@).0,
            match segment {
                Some(bytes) => extraction(old(self)@).1 == Some(bytes@),
                None => extraction(old(self)@).1 is None,
            },
    {
        if self.accumulated_speech.len() == 0 {
            return None;
        }
        let mut final_audio = concat_chunks(&self.pre_speech_buffer);
        append_bytes(&mut final_audio, self.accumulated_speech.as_slice());
        let tail = concat_chunks(&self.post_speech_buffer);
        append_bytes(&mut final_audio, tail.as_slice());
        self.reset();
        Some(final_audio)
    }

    fn extract_segment(&mut self) -> (segment: Option<Vec<u8>>)
        ensures
            final(self)@ == extraction(old(self)@).0,
            match segment {
                Some(bytes) => extraction(old(self)@).1 == Some(bytes@),
                None => extraction(old(self)@).1 is None,
            },
    {
        self.extract_final_segment()
    }

    /// Whether speech has begun and its segment is not complete.
    pub fn speech_detected(&self) -> (b: bool)
        ensures
            b == self@.speech_detected,
    {
        self.speech_detected
    }

    /// The number of bytes of context held, where that fits a `usize`.
    pub fn pre_speech_bytes(&self) -> (n: Option<usize>)
        ensures
            match n {
                Some(n) => n == total_len(self@.pre_speech),
                None => total_len(self@.pre_speech) > usize::MAX,
            },
    {
        total_bytes(&self.pre_speech_buffer)
    }

    /// The most bytes of context kept.
    pub fn pre_speech_max_bytes(&self) -> (n: usize)
        ensures
            n == self@.pre_speech_max_bytes,
    {
        self.pre_speech_buffer_max_bytes
    }

    /// The number of chunks of context held.
    pub fn pre_speech_chunks(&self) -> (n: usize)
        ensures
            n == self@.pre_speech.len(),
    {
        self.pre_speech_buffer.len()
    }

    /// The number of chunks of trailing silence held.
    pub fn post_speech_chunks(&self) -> (n: usize)
        ensures
            n == self@.post_speech.len(),
    {
        self.post_speech_buffer.len()
    }

    /// The number of bytes of speech held.
    pub fn accumulated_len(&self) -> (n: usize)
        ensures
            n == self@.accumulated_speech.len(),
    {
        self.accumulated_speech.len()
    }
}

/// After eviction the context is within its limit, or nothing is left.
pub proof fn lemma_evicted_within(chunks: Seq<Seq<u8>>, max: nat)
    ensures
        evicted(chunks, max).len() == 0 || total_len(evicted(chunks, max)) <= max,
    decreases chunks.len(),
{
    if chunks.len() > 0 && total_len(chunks) > max {
        lemma_evicted_within(chunks.drop_first(), max);
    }
}

} // verus!
