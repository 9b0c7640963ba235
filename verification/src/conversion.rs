//! Sample conversion: interleaved frames in, mono 16-bit little-endian bytes
//! out.

use vstd::prelude::*;

verus! {

/// The low byte of a sample in two's complement.
pub open spec fn low_byte(sample: i16) -> u8 {
    (unsigned_value(sample) % 256) as u8
}

/// The high byte of a sample in two's complement.
pub open spec fn high_byte(sample: i16) -> u8 {
    (unsigned_value(sample) / 256) as u8
}

/// The sample read as an unsigned 16-bit number.
pub open spec fn unsigned_value(sample: i16) -> int {
    if sample >= 0 {
        sample as int
    } else {
        sample + 65536
    }
}

/// The first sample of every whole frame of `channels` samples.
pub open spec fn first_channel(data: Seq<i16>, channels: nat) -> Seq<i16>
    recommends
        channels > 0,
{
    Seq::new((data.len() / channels) as nat, |f: int| data[f * channels])
}

/// The samples as bytes: two per sample, low byte first.
pub open spec fn little_endian(samples: Seq<i16>) -> Seq<u8> {
    Seq::new(
        2 * samples.len(),
        |i: int|
            if i % 2 == 0 {
                low_byte(samples[i / 2])
            } else {
                high_byte(samples[i / 2])
            },
    )
}

/// A sample format that converts to mono 16-bit little-endian bytes.
pub trait AudioSample: Sized {
    /// The bytes that `data`, interleaved over `channels` channels, converts
    /// to.
    spec fn mono_bytes(data: Seq<Self>, channels: nat) -> Seq<u8>;

    /// Converts `data`, interleaved over `channels` channels, to mono bytes.
    fn to_i16_mono(data: &[Self], channels: usize) -> (bytes: Vec<u8>)
        requires
            channels > 0,
        ensures
            bytes@ == Self::mono_bytes(data@, channels as nat),
    ;
}

impl AudioSample for i16 {
    /// The first channel of every whole frame, each sample as two bytes, low
    /// byte first. A trailing partial frame is left out.
    open spec fn mono_bytes(data: Seq<i16>, channels: nat) -> Seq<u8> {
        little_endian(first_channel(data, channels))
    }

    fn to_i16_mono(data: &[i16], channels: usize) -> (bytes: Vec<u8>) {
        let frames: usize = data.len() / channels;
        let ghost samples = first_channel(data@, channels as nat);
        let mut bytes: Vec<u8> = Vec::new();
        let mut f: usize = 0;
        let mut index: usize = 0;
        assert(frames * channels <= data@.len()) by (nonlinear_arith)
            requires
                frames == data@.len() / (channels as nat),
                channels > 0,
        ;
        while f < frames
            invariant
                channels > 0,
                f <= frames,
                frames == data@.len() / (channels as nat),
                frames * channels <= data@.len(),
                index == f * channels,
                samples == first_channel(data@, channels as nat),
                bytes@ == little_endian(samples.take(f as int)),
            decreases frames - f,
        {
            assert(index + channels <= data@.len()) by (nonlinear_arith)
                requires
                    index == f * channels,
                    f < frames,
                    frames * channels <= data@.len(),
                    channels > 0,
            ;
            let sample = data[index];
            assert(sample == samples[f as int]);
            let unsigned: u32 = if sample >= 0 {
                sample as u32
            } else {
                (sample as i32 + 65536) as u32
            };
            let low = (unsigned % 256) as u8;
            let high = (unsigned / 256) as u8;
            let ghost before = bytes@;
            bytes.push(low);
            bytes.push(high);
            proof {
                let next = little_endian(samples.take(f + 1));
                assert(bytes@.len() == next.len());
                assert forall|i: int| 0 <= i < next.len() implies bytes@[i] == next[i] by {
                    if i < 2 * f {
                        assert(bytes@[i] == before[i]);
                        assert(samples.take(f + 1)[i / 2] == samples.take(f as int)[i / 2]);
                    } else {
                        assert(i / 2 == f);
                        assert(samples.take(f + 1)[i / 2] == sample);
                    }
                }
                assert(bytes@ =~= next);
                assert((f + 1) * channels == index + channels) by (nonlinear_arith)
                    requires
                        index == f * channels,
                ;
            }
            f += 1;
            index += channels;
        }
        assert(samples.take(f as int) =~= samples);
        bytes
    }
}

/// Converts `data`, interleaved over `channels` channels, to mono 16-bit
/// little-endian bytes.
pub fn convert_audio_data<T: AudioSample>(data: &[T], channels: usize) -> (bytes: Vec<u8>)
    requires
        channels > 0,
    ensures
        bytes@ == T::mono_bytes(data@, channels as nat),
{
    T::to_i16_mono(data, channels)
}

} // verus!
