//! Decoded audio as the engine carries it around.

use vstd::prelude::*;

verus! {

/// Bytes that one stored sample occupies.
pub const BYTES_PER_SAMPLE: usize = 4;

/// A fully decoded sound.
///
/// `samples` holds interleaved PCM, one 32-bit word per sample, so its length
/// is frames times channels. The engine's bookkeeping never looks inside a
/// word; it only counts them. `lufs` is the integrated loudness in hundredths
/// of a loudness unit, when it has been measured.
#[derive(Debug, Clone)]
pub struct AudioData {
    pub samples: Vec<u32>,
    pub sample_rate: u32,
    pub channels: u16,
    pub lufs: Option<i32>,
}

/// Number of whole frames in `sample_count` interleaved samples.
pub open spec fn frames_of(sample_count: nat, channels: nat) -> nat
    recommends
        channels > 0,
{
    sample_count / channels
}

/// Estimated footprint of `sample_count` samples, held at the machine limit.
pub open spec fn footprint_of(sample_count: nat) -> nat {
    if sample_count * 4 <= usize::MAX {
        sample_count * 4
    } else {
        usize::MAX as nat
    }
}

impl AudioData {
    /// Number of whole frames, or zero for a buffer without channels.
    pub fn total_frames(&self) -> (frames: usize)
        ensures
            self.channels > 0 ==> frames == frames_of(self.samples@.len(), self.channels as nat),
            self.channels == 0 ==> frames == 0,
    {
        if self.channels == 0 {
            0
        } else {
            self.samples.len() / (self.channels as usize)
        }
    }

    /// Estimated memory footprint in bytes.
    pub fn estimated_bytes(&self) -> (bytes: usize)
        ensures
            bytes == footprint_of(self.samples@.len()),
    {
        let n: usize = self.samples.len();
        if n <= usize::MAX / BYTES_PER_SAMPLE {
            n * BYTES_PER_SAMPLE
        } else {
            usize::MAX
        }
    }
}

} // verus!
