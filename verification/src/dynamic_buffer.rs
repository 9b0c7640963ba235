//! The capture buffer: a contiguous run of bytes whose reserved size grows in
//! whole increments and falls back to its initial size on reset.

use crate::bytes::{append_bytes, concat_all};
use vstd::prelude::*;

verus! {

/// The number of seconds of audio that one growth step adds.
pub const GROWTH_SECONDS: usize = 15;

/// The growth increment of a buffer made by [`DynamicBuffer::with_capacity`]:
/// fifteen seconds of 16-bit mono audio at 48 kHz.
pub const DEFAULT_GROWTH_INCREMENT: usize = 1_440_000;

/// The smallest multiple of `increment` that is at least `required`.
pub open spec fn round_up(required: int, increment: int) -> int
    recommends
        increment > 0,
{
    if required % increment == 0 {
        required
    } else {
        (required / increment + 1) * increment
    }
}

/// The reserved size after a write that needs `required` bytes in all: unchanged
/// while the bytes fit, else `required` rounded up to a whole number of
/// increments, held to what a `usize` can express.
pub open spec fn grown_capacity(capacity: int, required: int, increment: int) -> int
    recommends
        increment > 0,
{
    if required <= capacity {
        capacity
    } else if round_up(required, increment) <= usize::MAX {
        round_up(required, increment)
    } else {
        usize::MAX as int
    }
}

/// `round_up` is a multiple of the increment, at least `required`, and less
/// than one increment above it.
pub proof fn lemma_round_up(required: int, increment: int)
    requires
        required >= 0,
        increment > 0,
    ensures
        round_up(required, increment) >= required,
        round_up(required, increment) < required + increment,
        round_up(required, increment) % increment == 0,
{
    let q = required / increment;
    let r = required % increment;
    assert(required == q * increment + r) by {
        vstd::arithmetic::div_mod::lemma_fundamental_div_mod(required, increment);
        assert(increment * q == q * increment) by (nonlinear_arith);
    }
    assert(0 <= r < increment) by {
        vstd::arithmetic::div_mod::lemma_mod_bound(required, increment);
    }
    assert((q + 1) * increment == q * increment + increment) by (nonlinear_arith);
    if r != 0 {
        assert(((q + 1) * increment) % increment == 0) by {
            vstd::arithmetic::div_mod::lemma_mod_multiples_basic(q + 1, increment);
        }
    }
}

/// A growable byte buffer.
///
/// Its view is the sequence of bytes written since the last drain or reset.
pub struct DynamicBuffer {
    buffer: Vec<u8>,
    initial_capacity: usize,
    growth_increment: usize,
    capacity: usize,
    last_logged_capacity: usize,
}

impl View for DynamicBuffer {
    type V = Seq<u8>;

    closed spec fn view(&self) -> Seq<u8> {
        self.buffer@
    }
}

impl DynamicBuffer {
    /// The invariant: the growth increment is positive, and the reserved size
    /// is below neither the length nor the initial size.
    pub closed spec fn wf(&self) -> bool {
        &&& self.growth_increment > 0
        &&& self.buffer@.len() <= self.capacity
        &&& self.initial_capacity <= self.capacity
    }

    /// The reserved size that the buffer starts with and returns to.
    pub closed spec fn spec_initial_capacity(&self) -> usize {
        self.initial_capacity
    }

    /// The step by which the reserved size grows.
    pub closed spec fn spec_growth_increment(&self) -> usize {
        self.growth_increment
    }

    /// The reserved size.
    pub closed spec fn spec_capacity(&self) -> usize {
        self.capacity
    }

    /// The reserved size at which growth was last reported.
    pub closed spec fn spec_watermark(&self) -> usize {
        self.last_logged_capacity
    }

    /// An empty buffer for 16-bit mono audio at `sample_rate`, reserving
    /// `initial_buffer_seconds` of it and growing by fifteen seconds at a time.
    pub fn new(sample_rate: u32, initial_buffer_seconds: u32) -> (b: Self)
        requires
            sample_rate > 0,
            sample_rate * 2 * initial_buffer_seconds <= usize::MAX,
            sample_rate * 2 * GROWTH_SECONDS <= usize::MAX,
        ensures
            b.wf(),
            b@ == Seq::<u8>::empty(),
            b.spec_initial_capacity() == sample_rate * 2 * initial_buffer_seconds,
            b.spec_growth_increment() == sample_rate * 2 * GROWTH_SECONDS,
            b.spec_capacity() == b.spec_initial_capacity(),
            b.spec_watermark() == b.spec_initial_capacity(),
    {
        let rate: usize = sample_rate as usize;
        let seconds: usize = initial_buffer_seconds as usize;
        assert(rate * 2 * seconds == sample_rate * 2 * initial_buffer_seconds);
        assert(rate * 2 <= rate * 2 * GROWTH_SECONDS) by (nonlinear_arith)
            requires
                rate >= 0,
        ;
        let bytes_per_second: usize = rate * 2;
        assert(bytes_per_second * seconds == rate * 2 * seconds);
        let initial_capacity: usize = bytes_per_second * seconds;
        let growth_increment: usize = bytes_per_second * GROWTH_SECONDS;
        DynamicBuffer {
            buffer: Vec::with_capacity(initial_capacity),
            initial_capacity,
            growth_increment,
            capacity: initial_capacity,
            last_logged_capacity: initial_capacity,
        }
    }

    /// An empty buffer that reserves `initial_capacity` bytes and grows by
    /// [`DEFAULT_GROWTH_INCREMENT`].
    pub fn with_capacity(initial_capacity: usize) -> (b: Self)
        ensures
            b.wf(),
            b@ == Seq::<u8>::empty(),
            b.spec_initial_capacity() == initial_capacity,
            b.spec_growth_increment() == DEFAULT_GROWTH_INCREMENT,
            b.spec_capacity() == initial_capacity,
            b.spec_watermark() == initial_capacity,
    {
        DynamicBuffer {
            buffer: Vec::with_capacity(initial_capacity),
            initial_capacity,
            growth_increment: DEFAULT_GROWTH_INCREMENT,
            capacity: initial_capacity,
            last_logged_capacity: initial_capacity,
        }
    }

    /// Appends `data`, growing the reserved size first where the bytes would
    /// not fit. The watermark follows the reserved size once that has grown by
    /// a whole increment past it.
    pub fn write(&mut self, data: &[u8])
        requires
            old(self).wf(),
            old(self)@.len() + data@.len() <= usize::MAX,
        ensures
            final(self).wf(),
            final(self)@ == old(self)@ + data@,
            final(self).spec_initial_capacity() == old(self).spec_initial_capacity(),
            final(self).spec_growth_increment() == old(self).spec_growth_increment(),
            final(self).spec_capacity() == grown_capacity(
                old(self).spec_capacity() as int,
                (old(self)@.len() + data@.len()) as int,
                old(self).spec_growth_increment() as int,
            ),
            final(self).spec_watermark() == if old(self)@.len() + data@.len() > old(
                self,
            ).spec_capacity() && final(self).spec_capacity() >= old(self).spec_watermark() + old(
                self,
            ).spec_growth_increment() {
                final(self).spec_capacity()
            } else {
                old(self).spec_watermark()
            },
    {
        let required: usize = self.buffer.len() + data.len();
        if required > self.capacity {
            let new_capacity = round_up_to_increment(required, self.growth_increment);
            self.buffer.reserve(new_capacity - self.buffer.len());
            self.capacity = new_capacity;
            if new_capacity as u128 >= self.last_logged_capacity as u128
                + self.growth_increment as u128 {
                self.last_logged_capacity = new_capacity;
            }
        }
        append_bytes(&mut self.buffer, data);
    }

    /// Hands out everything written so far and leaves the buffer empty at its
    /// initial reserved size.
    pub fn read_all(&mut self) -> (data: Vec<u8>)
        requires
            old(self).wf(),
        ensures
            final(self).wf(),
            data@ == old(self)@,
            final(self)@ == Seq::<u8>::empty(),
            final(self).spec_capacity() == old(self).spec_initial_capacity(),
            final(self).spec_initial_capacity() == old(self).spec_initial_capacity(),
            final(self).spec_growth_increment() == old(self).spec_growth_increment(),
            final(self).spec_watermark() == old(self).spec_watermark(),
    {
        let mut data: Vec<u8> = Vec::with_capacity(self.initial_capacity);
        std::mem::swap(&mut self.buffer, &mut data);
        self.capacity = self.initial_capacity;
        data
    }

    /// Discards the contents and returns the reserved size and the watermark to
    /// the initial size.
    pub fn reset(&mut self)
        requires
            old(self).wf(),
        ensures
            final(self).wf(),
            final(self)@ == Seq::<u8>::empty(),
            final(self).spec_capacity() == old(self).spec_initial_capacity(),
            final(self).spec_watermark() == old(self).spec_initial_capacity(),
            final(self).spec_initial_capacity() == old(self).spec_initial_capacity(),
            final(self).spec_growth_increment() == old(self).spec_growth_increment(),
    {
        self.buffer = Vec::with_capacity(self.initial_capacity);
        self.capacity = self.initial_capacity;
        self.last_logged_capacity = self.initial_capacity;
    }

    /// The number of bytes held.
    pub fn len(&self) -> (n: usize)
        ensures
            n == self@.len(),
    {
        self.buffer.len()
    }

    /// Whether no byte is held.
    pub fn is_empty(&self) -> (b: bool)
        ensures
            b == (self@.len() == 0),
    {
        self.buffer.len() == 0
    }

    /// The reserved size.
    pub fn capacity(&self) -> (c: usize)
        ensures
            c == self.spec_capacity(),
    {
        self.capacity
    }

    /// The bytes held, in the order written.
    pub fn get_data(&self) -> (data: &[u8])
        ensures
            data@ == self@,
    {
        self.buffer.as_slice()
    }
}

/// The contents of a buffer that held `initial` and then took `writes` in order.
pub open spec fn after_writes(initial: Seq<u8>, writes: Seq<Seq<u8>>) -> Seq<u8>
    decreases writes.len(),
{
    if writes.len() == 0 {
        initial
    } else {
        after_writes(initial, writes.drop_last()) + writes.last()
    }
}

/// Round trip: whatever is written to an empty buffer, in any number of writes,
/// is what `read_all` then hands out, byte for byte and in order, and the
/// buffer is empty afterwards.
///
/// `write` appends its argument to the view and `read_all` returns the view and
/// empties it; this states what those two contracts give over a whole run.
pub proof fn lemma_round_trip(writes: Seq<Seq<u8>>)
    ensures
        after_writes(Seq::<u8>::empty(), writes) == concat_all(writes),
    decreases writes.len(),
{
    if writes.len() > 0 {
        lemma_round_trip(writes.drop_last());
    }
}

/// A well-formed buffer reserves at least its length and its initial size.
pub proof fn lemma_capacity_bounds(b: DynamicBuffer)
    requires
        b.wf(),
    ensures
        b@.len() <= b.spec_capacity(),
        b.spec_initial_capacity() <= b.spec_capacity(),
        b.spec_growth_increment() > 0,
{
}

/// `required` rounded up to a whole number of increments, or `usize::MAX`
/// where that does not fit.
fn round_up_to_increment(required: usize, increment: usize) -> (r: usize)
    requires
        increment > 0,
    ensures
        r == if round_up(required as int, increment as int) <= usize::MAX {
            round_up(required as int, increment as int)
        } else {
            usize::MAX as int
        },
        r >= required,
{
    proof {
        lemma_round_up(required as int, increment as int);
    }
    let remainder: usize = required % increment;
    if remainder == 0 {
        required
    } else {
        let quotient: usize = required / increment;
        let step: usize = increment - remainder;
        assert(required == quotient * increment + remainder) by {
            vstd::arithmetic::div_mod::lemma_fundamental_div_mod(required as int, increment as int);
            assert(increment * quotient == quotient * increment) by (nonlinear_arith);
        }
        assert((quotient + 1) * increment == required + step) by (nonlinear_arith)
            requires
                required == quotient * increment + remainder,
                step == increment - remainder,
        ;
        match required.checked_add(step) {
            Some(rounded) => rounded,
            None => usize::MAX,
        }
    }
}

} // verus!
