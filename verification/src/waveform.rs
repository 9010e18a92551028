//! Amplitude peaks of a decoded sound, for drawing its waveform.
//!
//! A sample word carries its sign in the top bit and its magnitude in the
//! other 31 bits; a larger magnitude is a larger amplitude. Magnitudes above
//! [`MAGNITUDE_LIMIT`] are not amplitudes and count as nothing. The peaks come
//! out as magnitudes; dividing them by the largest one, to draw them between
//! zero and one, is left to the caller.

use vstd::prelude::*;

use crate::buffer::AudioData;
use crate::session::{frames_ms, playback_duration_ms};

verus! {

/// The largest magnitude that is an amplitude.
pub const MAGNITUDE_LIMIT: u32 = 0x7F80_0000;

/// Peaks of a sound and its length.
#[derive(Debug, Clone)]
pub struct WaveformData {
    /// The largest magnitude in each segment of the sound.
    pub peaks: Vec<u32>,
    /// Length of the sound in milliseconds.
    pub duration_ms: u64,
}

/// The amplitude of a sample word: its magnitude, or nothing if that lies
/// above the limit.
pub open spec fn magnitude(word: u32) -> u32 {
    let bits = word & 0x7FFF_FFFF;
    if bits > MAGNITUDE_LIMIT {
        0
    } else {
        bits
    }
}

/// The largest amplitude among the samples from `lo` up to `hi`; nothing for
/// an empty range.
pub open spec fn range_peak(samples: Seq<u32>, lo: int, hi: int) -> u32
    decreases hi - lo,
{
    if hi <= lo {
        0
    } else {
        let rest = range_peak(samples, lo, hi - 1);
        let last = magnitude(samples[hi - 1]);
        if last > rest {
            last
        } else {
            rest
        }
    }
}

/// Frames in one segment when `total_frames` are cut into `num_peaks`
/// segments: their quotient, but at least one.
pub open spec fn frames_per_peak(total_frames: nat, num_peaks: nat) -> nat
    recommends
        num_peaks > 0,
{
    if total_frames / num_peaks >= 1 {
        total_frames / num_peaks
    } else {
        1
    }
}

/// The peak of segment `i`: the largest amplitude in the frames from
/// `i * per` up to `(i + 1) * per`, as far as the sound reaches.
pub open spec fn segment_peak(
    samples: Seq<u32>,
    channels: nat,
    total_frames: nat,
    per: nat,
    i: nat,
) -> u32 {
    let start = i * per;
    let end = if (i + 1) * per <= total_frames {
        (i + 1) * per
    } else {
        total_frames
    };
    range_peak(samples, (start * channels) as int, (end * channels) as int)
}

/// The largest of `peaks`; nothing for an empty list.
pub open spec fn largest(peaks: Seq<u32>) -> u32
    decreases peaks.len(),
{
    if peaks.len() == 0 {
        0
    } else {
        let rest = largest(peaks.drop_last());
        if peaks.last() > rest {
            peaks.last()
        } else {
            rest
        }
    }
}

/// The amplitude of a sample word, see [`magnitude`].
pub fn magnitude_of(word: u32) -> (m: u32)
    ensures
        m == magnitude(word),
{
    let bits: u32 = word & 0x7FFF_FFFF;
    if bits > MAGNITUDE_LIMIT {
        0
    } else {
        bits
    }
}

/// The largest amplitude among `samples[lo..hi]`.
fn peak_between(samples: &Vec<u32>, lo: usize, hi: usize) -> (peak: u32)
    requires
        lo <= hi <= samples@.len(),
    ensures
        peak == range_peak(samples@, lo as int, hi as int),
{
    let mut peak: u32 = 0;
    let mut k: usize = lo;
    while k < hi
        invariant
            lo <= k <= hi <= samples@.len(),
            peak == range_peak(samples@, lo as int, k as int),
        decreases hi - k,
    {
        let amplitude = magnitude_of(samples[k]);
        if amplitude > peak {
            peak = amplitude;
        }
        k += 1;
    }
    peak
}

/// Cuts the sound into `num_peaks` segments of equal length and finds the
/// largest amplitude in each.
///
/// A sound without frames, or a request for no peaks, gives no peaks. Where
/// more peaks are asked for than the sound has frames, each frame is a
/// segment and the peaks beyond the last frame are nothing.
pub fn generate_peaks(audio_data: &AudioData, num_peaks: usize) -> (waveform: WaveformData)
    ensures
        waveform.duration_ms == frames_ms(
            total_frames_of(*audio_data),
            audio_data.sample_rate as nat,
        ),
        total_frames_of(*audio_data) == 0 || num_peaks == 0 ==> waveform.peaks@.len() == 0,
        total_frames_of(*audio_data) > 0 && num_peaks > 0 ==> waveform.peaks@.len() == num_peaks
            && forall|i: int|
            0 <= i < num_peaks ==> #[trigger] waveform.peaks@[i] == segment_peak(
                audio_data.samples@,
                audio_data.channels as nat,
                total_frames_of(*audio_data),
                frames_per_peak(total_frames_of(*audio_data), num_peaks as nat),
                i as nat,
            ),
{
    let channels: usize = audio_data.channels as usize;
    let total_frames: usize = audio_data.total_frames();
    let duration_ms = playback_duration_ms(total_frames, audio_data.sample_rate, None, None);
    let mut peaks: Vec<u32> = Vec::new();
    if total_frames == 0 || num_peaks == 0 {
        return WaveformData { peaks, duration_ms };
    }
    let quotient: usize = total_frames / num_peaks;
    let per: usize = if quotient >= 1 {
        quotient
    } else {
        1
    };
    proof {
        // All segments together cover no more than the sound or, where each
        // frame is a segment, no more than the peaks asked for.
        vstd::arithmetic::div_mod::lemma_fundamental_div_mod(total_frames as int, num_peaks as int);
        vstd::arithmetic::div_mod::lemma_fundamental_div_mod(
            audio_data.samples@.len() as int,
            channels as int,
        );
        let count = audio_data.samples@.len() as int;
        let left = count % (channels as int);
        assert(total_frames * channels <= count) by (nonlinear_arith)
            requires
                count == channels * total_frames + left,
                left >= 0,
        ;
    }
    let sample_count: usize = audio_data.samples.len();
    let mut i: usize = 0;
    while i < num_peaks
        invariant
            0 <= i <= num_peaks,
            sample_count == audio_data.samples@.len(),
            per >= 1,
            per == frames_per_peak(total_frames as nat, num_peaks as nat),
            per * num_peaks <= total_frames || per == 1,
            channels == audio_data.channels,
            channels > 0,
            total_frames == total_frames_of(*audio_data),
            total_frames * channels <= audio_data.samples@.len(),
            peaks@.len() == i,
            forall|k: int|
                0 <= k < i ==> #[trigger] peaks@[k] == segment_peak(
                    audio_data.samples@,
                    channels as nat,
                    total_frames as nat,
                    per as nat,
                    k as nat,
                ),
        decreases num_peaks - i,
    {
        proof {
            assert((i + 1) * per <= num_peaks * per) by (nonlinear_arith)
                requires
                    i + 1 <= num_peaks,
                    per >= 1,
            ;
            assert(i * per <= (i + 1) * per) by (nonlinear_arith)
                requires
                    per >= 1,
                    i >= 0,
            ;
            assert(num_peaks * per == per * num_peaks) by (nonlinear_arith);
            assert(num_peaks * 1 == num_peaks);
        }
        let start: usize = i * per;
        let bound: usize = (i + 1) * per;
        let end: usize = if bound <= total_frames {
            bound
        } else {
            total_frames
        };
        let peak = if start < end {
            proof {
                assert(end * channels <= total_frames * channels) by (nonlinear_arith)
                    requires
                        end <= total_frames,
                        channels > 0,
                ;
                assert(start * channels <= end * channels) by (nonlinear_arith)
                    requires
                        start <= end,
                        channels > 0,
                ;
            }
            peak_between(&audio_data.samples, start * channels, end * channels)
        } else {
            proof {
                assert((end * channels) as int <= (start * channels) as int) by (nonlinear_arith)
                    requires
                        end <= start,
                        channels > 0,
                ;
            }
            0
        };
        peaks.push(peak);
        i += 1;
    }
    WaveformData { peaks, duration_ms }
}

/// The largest of the peaks, by which they are divided to draw them between
/// zero and one.
pub fn max_peak(peaks: &Vec<u32>) -> (top: u32)
    ensures
        top == largest(peaks@),
        forall|i: int| 0 <= i < peaks@.len() ==> peaks@[i] <= top,
{
    let mut top: u32 = 0;
    let mut i: usize = 0;
    while i < peaks.len()
        invariant
            0 <= i <= peaks@.len(),
            top == largest(peaks@.subrange(0, i as int)),
            forall|k: int| 0 <= k < i ==> peaks@[k] <= top,
        decreases peaks@.len() - i,
    {
        proof {
            assert(peaks@.subrange(0, i + 1).drop_last() =~= peaks@.subrange(0, i as int));
        }
        if peaks[i] > top {
            top = peaks[i];
        }
        i += 1;
    }
    proof {
        assert(peaks@.subrange(0, peaks@.len() as int) =~= peaks@);
    }
    top
}

/// Whole frames of a sound; none for a sound without channels.
pub open spec fn total_frames_of(audio: AudioData) -> nat {
    if audio.channels == 0 {
        0
    } else {
        audio.samples@.len() / (audio.channels as nat)
    }
}

} // verus!
