//! The lossy ring for real-time observers: a bounded byte queue whose writer
//! never waits. What does not fit is dropped.

use crate::bytes::{concat_all, lemma_concat_len, total_len};
use ringbuf::traits::{Consumer, Observer, Producer};
use vstd::prelude::*;

verus! {

/// A bounded byte queue between one writer and one reader, kept in a ring of
/// the `ringbuf` crate. The verifier does not look inside: what it knows of a
/// ring is what the functions below say of [`ring_contents`] and
/// [`ring_capacity`].
#[verifier::external_body]
pub struct RingBuffer {
    ring: ringbuf::HeapRb<u8>,
}

/// The bytes that a ring holds, oldest first.
pub uninterp spec fn ring_contents(ring: RingBuffer) -> Seq<u8>;

/// The number of bytes that a ring was made for.
pub uninterp spec fn ring_capacity(ring: RingBuffer) -> nat;

/// A new ring for `capacity` bytes.
///
/// Trusted: `ringbuf::HeapRb::<u8>::new`. The ring starts empty and its
/// capacity is exactly the one asked for; a capacity of zero panics and is
/// left out.
#[verifier::external_body]
fn ring_new(capacity: usize) -> (ring: RingBuffer)
    requires
        capacity > 0,
    ensures
        ring_contents(ring) == Seq::<u8>::empty(),
        ring_capacity(ring) == capacity,
{
    RingBuffer { ring: ringbuf::HeapRb::<u8>::new(capacity) }
}

/// Appends as much of `data` as fits and answers how many bytes that was.
///
/// Trusted: `Producer::push_slice` of `ringbuf`. It copies the first bytes of
/// the slice into the vacant part of the ring, as many as there is room for,
/// behind what the ring holds, and returns their number. The capacity does
/// not change.
#[verifier::external_body]
fn ring_push_slice(ring: &mut RingBuffer, data: &[u8]) -> (count: usize)
    requires
        ring_contents(*old(ring)).len() <= ring_capacity(*old(ring)),
    ensures
        count == accepted(ring_contents(*old(ring)).len(), ring_capacity(*old(ring)), data@.len()),
        ring_contents(*final(ring)) == ring_contents(*old(ring)) + data@.take(count as int),
        ring_capacity(*final(ring)) == ring_capacity(*old(ring)),
{
    ring.ring.push_slice(data)
}

/// The number of bytes that the ring holds.
///
/// Trusted: `Observer::occupied_len` of `ringbuf`, on a ring that nothing
/// else touches during the call.
#[verifier::external_body]
fn ring_occupied_len(ring: &RingBuffer) -> (n: usize)
    ensures
        n == ring_contents(*ring).len(),
{
    ring.ring.occupied_len()
}

/// Moves the oldest bytes of the ring into the front of `out`, as many as
/// `out` has room for, and answers how many bytes that was.
///
/// Trusted: `Consumer::pop_slice` of `ringbuf`. It copies the oldest items
/// into the slice from its start, removes them from the ring and returns
/// their number; the rest of the slice and the capacity do not change.
#[verifier::external_body]
fn ring_pop_slice(ring: &mut RingBuffer, out: &mut Vec<u8>) -> (count: usize)
    ensures
        count == if old(out)@.len() <= ring_contents(*old(ring)).len() {
            old(out)@.len()
        } else {
            ring_contents(*old(ring)).len()
        },
        final(out)@ == ring_contents(*old(ring)).take(count as int) + old(out)@.skip(count as int),
        ring_contents(*final(ring)) == ring_contents(*old(ring)).skip(count as int),
        ring_capacity(*final(ring)) == ring_capacity(*old(ring)),
{
    ring.ring.pop_slice(out.as_mut_slice())
}

/// How many of `offered` bytes a ring takes that holds `held` of `capacity`.
pub open spec fn accepted(held: nat, capacity: nat, offered: nat) -> nat {
    if held + offered <= capacity {
        offered
    } else {
        (capacity - held) as nat
    }
}

/// What a ring holds after a write: the old bytes, then as much of the front
/// of `data` as fits.
pub open spec fn after_write(contents: Seq<u8>, capacity: nat, data: Seq<u8>) -> Seq<u8> {
    contents + data.take(accepted(contents.len(), capacity, data.len()) as int)
}

/// What a ring holds after `writes` in order, with no read between them.
pub open spec fn after_ring_writes(contents: Seq<u8>, capacity: nat, writes: Seq<Seq<u8>>) -> Seq<
    u8,
>
    decreases writes.len(),
{
    if writes.len() == 0 {
        contents
    } else {
        after_write(after_ring_writes(contents, capacity, writes.drop_last()), capacity, writes.last())
    }
}

/// First in, first out, under the capacity: an empty ring that takes `writes`
/// holds their bytes in the order written, cut off at the capacity. While the
/// writes fit, that is every byte; beyond the capacity the tail is dropped.
///
/// `read_chunk` hands out what the ring holds, so this is what is read back.
pub proof fn lemma_ring_fifo(capacity: nat, writes: Seq<Seq<u8>>)
    ensures
        after_ring_writes(Seq::<u8>::empty(), capacity, writes) == concat_all(writes).take(
            if total_len(writes) <= capacity {
                total_len(writes) as int
            } else {
                capacity as int
            },
        ),
        total_len(writes) <= capacity ==> after_ring_writes(Seq::<u8>::empty(), capacity, writes)
            == concat_all(writes),
    decreases writes.len(),
{
    lemma_concat_len(writes);
    if writes.len() == 0 {
        assert(concat_all(writes).take(0) =~= Seq::<u8>::empty());
    } else {
        let init = writes.drop_last();
        let last = writes.last();
        lemma_ring_fifo(capacity, init);
        lemma_concat_len(init);
        let before = after_ring_writes(Seq::<u8>::empty(), capacity, init);
        let after = after_write(before, capacity, last);
        let kept = if total_len(writes) <= capacity {
            total_len(writes) as int
        } else {
            capacity as int
        };
        assert(after =~= concat_all(writes).take(kept));
    }
    if total_len(writes) <= capacity {
        assert(concat_all(writes).take(total_len(writes) as int) =~= concat_all(writes));
    }
}

impl View for RingBuffer {
    type V = Seq<u8>;

    open spec fn view(&self) -> Seq<u8> {
        ring_contents(*self)
    }
}

impl RingBuffer {
    /// The number of bytes that the ring can hold.
    pub open spec fn spec_capacity(&self) -> nat {
        ring_capacity(*self)
    }

    /// The invariant: never more bytes than the capacity.
    pub open spec fn wf(&self) -> bool {
        self@.len() <= self.spec_capacity()
    }

    /// An empty ring for `capacity_seconds` of 16-bit mono audio at
    /// `sample_rate`.
    pub fn new(capacity_seconds: usize, sample_rate: u32) -> (r: Self)
        requires
            0 < capacity_seconds * sample_rate * 2 <= usize::MAX,
        ensures
            r.wf(),
            r@ == Seq::<u8>::empty(),
            r.spec_capacity() == capacity_seconds * sample_rate * 2,
    {
        let rate: usize = sample_rate as usize;
        assert(capacity_seconds * rate <= capacity_seconds * rate * 2) by (nonlinear_arith)
            requires
                capacity_seconds * rate >= 0,
        ;
        let capacity: usize = capacity_seconds * rate * 2;
        ring_new(capacity)
    }

    /// Appends as much of `data` as fits; the rest is dropped. Answers how
    /// many bytes were taken.
    pub fn write(&mut self, data: &[u8]) -> (written: usize)
        requires
            old(self).wf(),
        ensures
            final(self).wf(),
            final(self).spec_capacity() == old(self).spec_capacity(),
            final(self)@ == after_write(old(self)@, old(self).spec_capacity(), data@),
            written == accepted(old(self)@.len(), old(self).spec_capacity(), data@.len()),
    {
        ring_push_slice(self, data)
    }

    /// Hands out everything the ring holds if that is at least `min_size`
    /// bytes, and nothing otherwise.
    pub fn read_chunk(&mut self, min_size: usize) -> (chunk: Option<Vec<u8>>)
        requires
            old(self).wf(),
        ensures
            final(self).wf(),
            final(self).spec_capacity() == old(self).spec_capacity(),
            match chunk {
                Some(bytes) => old(self)@.len() >= min_size && bytes@ == old(self)@ && final(self)@
                    == Seq::<u8>::empty(),
                None => old(self)@.len() < min_size && final(self)@ == old(self)@,
            },
    {
        let available = ring_occupied_len(self);
        if available < min_size {
            return None;
        }
        let mut chunk: Vec<u8> = vec![0u8; available];
        let read = ring_pop_slice(self, &mut chunk);
        chunk.truncate(read);
        assert(chunk@ =~= old(self)@);
        assert(self@ =~= Seq::<u8>::empty());
        Some(chunk)
    }

    /// The number of bytes that the ring holds.
    pub fn available_bytes(&self) -> (n: usize)
        ensures
            n == self@.len(),
    {
        ring_occupied_len(self)
    }

    /// Discards everything the ring holds.
    pub fn reset_reader(&mut self)
        requires
            old(self).wf(),
        ensures
            final(self).wf(),
            final(self).spec_capacity() == old(self).spec_capacity(),
            final(self)@ == Seq::<u8>::empty(),
    {
        let len = ring_occupied_len(self);
        if len > 0 {
            let mut drained: Vec<u8> = vec![0u8; len];
            let _ = ring_pop_slice(self, &mut drained);
        }
        assert(self@ =~= Seq::<u8>::empty());
    }
}

} // verus!
