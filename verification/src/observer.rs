//! The real-time observer: what it does with the ring when a recording
//! starts, on every poll of the ring, and when the recording ends.
//!
//! The observer's worker sleeps between polls and hands completed segments
//! to the transcription service; both happen outside. Here is what it decides.

use crate::ring_buffer::RingBuffer;
use crate::smart_collector::{cleared, collector_step, extraction, CollectorModel, SmartCollector};
use vstd::prelude::*;

verus! {

/// The fewest bytes worth reading from the ring: about 0.4 s of audio.
pub const MIN_CHUNK_SIZE: usize = 38400;

/// The size up to which the ring is asked for a chunk.
pub const MAX_CHUNK_SIZE: usize = 76800;

/// How long the worker sleeps between polls, in milliseconds.
pub const POLL_INTERVAL_MS: u64 = 100;

/// The observer of the ring.
pub struct TranscriptionObserver {
    enabled: bool,
    running: bool,
    collector: SmartCollector,
}

/// The mathematical content of a [`TranscriptionObserver`].
pub struct ObserverModel {
    /// Whether real-time observation is configured.
    pub enabled: bool,
    /// Whether a worker is polling the ring.
    pub running: bool,
    pub collector: CollectorModel,
}

impl View for TranscriptionObserver {
    type V = ObserverModel;

    closed spec fn view(&self) -> ObserverModel {
        ObserverModel { enabled: self.enabled, running: self.running, collector: self.collector@ }
    }
}

impl TranscriptionObserver {
    /// An observer that is not running, with an empty collector for audio at
    /// `sample_rate`. `enabled` says whether real-time observation is
    /// configured; an observer that is not enabled does nothing.
    pub fn new(enabled: bool, sample_rate: u32) -> (o: Self)
        requires
            sample_rate * 2 * 2 <= usize::MAX,
        ensures
            o@.enabled == enabled,
            !o@.running,
            o@.collector.speech_detected == false,
            o@.collector.accumulated_speech == Seq::<u8>::empty(),
    {
        TranscriptionObserver { enabled, running: false, collector: SmartCollector::new(sample_rate) }
    }

    /// Whether a worker is polling the ring.
    pub fn is_running(&self) -> (b: bool)
        ensures
            b == self@.running,
    {
        self.running
    }

    /// A recording starts. Answers whether a worker has to be started: only
    /// for an enabled observer that is not running yet, which then drains
    /// the ring so that the worker begins with fresh audio.
    pub fn on_start(&mut self, ring: &mut RingBuffer) -> (spawn: bool)
        requires
            old(ring).wf(),
        ensures
            final(ring).wf(),
            final(ring).spec_capacity() == old(ring).spec_capacity(),
            spawn == (old(self)@.enabled && !old(self)@.running),
            final(self)@ == (ObserverModel {
                running: old(self)@.running || old(self)@.enabled,
                ..old(self)@
            }),
            final(ring)@ == if spawn {
                Seq::<u8>::empty()
            } else {
                old(ring)@
            },
    {
        if !self.enabled {
            return false;
        }
        if self.running {
            return false;
        }
        self.running = true;
        ring.reset_reader();
        true
    }

    /// One poll of the ring by the worker. With fewer bytes than
    /// [`MIN_CHUNK_SIZE`] nothing happens. Otherwise everything in the ring
    /// goes to the collector, and the segment that this completes, if any,
    /// is handed back for transcription.
    pub fn poll(&mut self, ring: &mut RingBuffer) -> (segment: Option<Vec<u8>>)
        requires
            old(ring).wf(),
        ensures
            final(ring).wf(),
            final(ring).spec_capacity() == old(ring).spec_capacity(),
            old(ring)@.len() < MIN_CHUNK_SIZE ==> {
                &&& segment is None
                &&& final(ring)@ == old(ring)@
                &&& final(self)@ == old(self)@
            },
            old(ring)@.len() >= MIN_CHUNK_SIZE ==> {
                &&& final(ring)@ == Seq::<u8>::empty()
                &&& final(self)@ == (ObserverModel {
                    collector: collector_step(old(self)@.collector, old(ring)@).0,
                    ..old(self)@
                })
                &&& match segment {
                    Some(bytes) => collector_step(old(self)@.collector, old(ring)@).1 == Some(
                        bytes@,
                    ),
                    None => collector_step(old(self)@.collector, old(ring)@).1 is None,
                }
            },
    {
        let available = ring.available_bytes();
        if available < MIN_CHUNK_SIZE {
            return None;
        }
        let chunk_size = if available < MAX_CHUNK_SIZE {
            available
        } else {
            MAX_CHUNK_SIZE
        };
        match ring.read_chunk(chunk_size) {
            Some(chunk) => self.collector.process_chunk(chunk.as_slice()),
            None => None,
        }
    }

    /// The recording stops. The worker has to be stopped by the caller first.
    /// Hands back what the collector still holds, for a last transcription,
    /// and clears the collector. An observer that is not enabled does
    /// nothing.
    pub fn on_stop(&mut self) -> (segment: Option<Vec<u8>>)
        ensures
            !old(self)@.enabled ==> segment is None && final(self)@ == old(self)@,
            old(self)@.enabled ==> {
                &&& final(self)@ == (ObserverModel {
                    running: false,
                    collector: cleared(old(self)@.collector),
                    ..old(self)@
                })
                &&& match segment {
                    Some(bytes) => extraction(old(self)@.collector).1 == Some(bytes@),
                    None => extraction(old(self)@.collector).1 is None,
                }
            },
    {
        if !self.enabled {
            return None;
        }
        self.running = false;
        let segment = self.collector.extract_final_segment();
        self.collector.reset();
        segment
    }

    /// The recording is cancelled: what the collector holds is discarded.
    pub fn on_cancel(&mut self)
        ensures
            !old(self)@.enabled ==> final(self)@ == old(self)@,
            old(self)@.enabled ==> final(self)@ == (ObserverModel {
                running: false,
                collector: cleared(old(self)@.collector),
                ..old(self)@
            }),
    {
        if !self.enabled {
            return;
        }
        self.running = false;
        self.collector.reset();
    }
}

} // verus!
