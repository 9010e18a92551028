//! Planning of an output stream: which source samples each output sample is
//! made of.
//!
//! A stream reads a decoded buffer at the device's rate. Its position in the
//! source is a frame index with a fraction, and advances by
//! `source_rate / device_rate` per output frame. The position is kept exactly:
//! `frame` whole frames plus `phase / device_rate` of a frame. The planner
//! says for every output sample whether it is silent, a copy of one source
//! sample, or a blend of two neighbours with a weight; the arithmetic on the
//! sample values themselves is the caller's.

use vstd::arithmetic::div_mod::{
    lemma_div_is_ordered, lemma_fundamental_div_mod, lemma_fundamental_div_mod_converse,
};
use vstd::prelude::*;

use crate::error::AudioError;

verus! {

/// Largest correction that loudness normalisation applies, in hundredths of a
/// decibel.
pub const MAX_GAIN_CENTIBEL: i32 = 1200;

/// What one output sample is made of.
#[derive(Clone, Copy, Debug, PartialEq, Eq, Structural)]
pub enum Slot {
    /// Zero amplitude.
    Silence,
    /// The source sample at `index`.
    Hold { index: usize },
    /// `lower + (upper - lower) * num / den` of the source samples at the two
    /// indices.
    Blend { lower: usize, upper: usize, num: u32, den: u32 },
}

/// Position of a stream in its source: `frame + phase / device_rate` frames.
#[derive(Clone, Copy, Debug, PartialEq, Eq, Structural)]
pub struct Cursor {
    pub frame: usize,
    pub phase: u32,
}

/// What is fixed when a stream is built.
#[derive(Clone, Copy, Debug, PartialEq, Eq, Structural)]
pub struct StreamPlan {
    /// Frames per second of the source.
    pub source_rate: u32,
    /// Frames per second of the device.
    pub device_rate: u32,
    /// Channels of the source.
    pub source_channels: u16,
    /// Channels of the device.
    pub device_channels: u16,
    /// Number of interleaved samples in the source.
    pub sample_count: usize,
    /// First frame that is no longer played.
    pub end_frame: usize,
}

/// Size of the hardware buffer that a stream asks for.
#[derive(Clone, Copy, Debug, PartialEq, Eq, Structural)]
pub enum BufferChoice {
    /// A fixed number of frames.
    Fixed(u32),
    /// Whatever the device uses by default.
    DeviceDefault,
}

/// The buffer sizes to try, in this order; the first is the preferred one.
pub open spec fn ladder() -> Seq<BufferChoice> {
    seq![
        BufferChoice::Fixed(256),
        BufferChoice::Fixed(512),
        BufferChoice::Fixed(1024),
        BufferChoice::DeviceDefault,
    ]
}

/// The `attempt`th buffer size to try, counted from zero, or `None` when the
/// ladder is used up.
pub fn ladder_step(attempt: usize) -> (choice: Option<BufferChoice>)
    ensures
        attempt < ladder().len() ==> choice == Some(ladder()[attempt as int]),
        attempt >= ladder().len() ==> choice is None,
{
    if attempt == 0 {
        Some(BufferChoice::Fixed(256))
    } else if attempt == 1 {
        Some(BufferChoice::Fixed(512))
    } else if attempt == 2 {
        Some(BufferChoice::Fixed(1024))
    } else if attempt == 3 {
        Some(BufferChoice::DeviceDefault)
    } else {
        None
    }
}

/// Whether an attempt with `choice` ended in an error.
pub open spec fn refused<S, F: Fn(BufferChoice) -> Result<S, AudioError>>(
    try_build: F,
    choice: BufferChoice,
) -> bool {
    exists|e: AudioError| try_build.ensures((choice,), Err::<S, AudioError>(e))
}

/// Whether the first `count` sizes of the ladder were all refused.
pub open spec fn refused_up_to<S, F: Fn(BufferChoice) -> Result<S, AudioError>>(
    try_build: F,
    count: int,
) -> bool {
    forall|before: int|
        0 <= before < count && before < ladder().len() ==> refused::<S, F>(
            try_build,
            #[trigger] ladder()[before],
        )
}

/// Builds a stream with the first buffer size of the ladder that the device
/// accepts.
///
/// `try_build` makes one attempt with the size it is given. The sizes are
/// tried in the ladder's order and the first success is returned with the
/// size that won. If every size fails, the error of the last attempt, the one
/// with the device's default, is returned.
pub fn negotiate_buffer<S, F>(try_build: F) -> (built: Result<(S, BufferChoice), AudioError>) where
    F: Fn(BufferChoice) -> Result<S, AudioError>,

    requires
        forall|choice: BufferChoice| try_build.requires((choice,)),
    ensures
        match built {
            Ok((stream, choice)) => exists|at: int|
                0 <= at < ladder().len() && #[trigger] ladder()[at] == choice
                    && try_build.ensures((choice,), Ok(stream)) && refused_up_to::<S, F>(
                    try_build,
                    at,
                ),
            Err(error) => try_build.ensures((BufferChoice::DeviceDefault,), Err(error))
                && refused_up_to::<S, F>(try_build, ladder().len() as int),
        },
{
    let mut attempt: usize = 0;
    while attempt < 3
        invariant
            0 <= attempt <= 3,
            forall|choice: BufferChoice| try_build.requires((choice,)),
            refused_up_to::<S, F>(try_build, attempt as int),
        decreases 3 - attempt,
    {
        match ladder_step(attempt) {
            Some(choice) => {
                match try_build(choice) {
                    Ok(stream) => {
                        assert(ladder()[attempt as int] == choice);
                        return Ok((stream, choice));
                    },
                    Err(e) => {
                        assert(try_build.ensures((ladder()[attempt as int],), Err::<S, AudioError>(e)));
                        assert(refused::<S, F>(try_build, ladder()[attempt as int]));
                    },
                }
            },
            None => {},
        }
        attempt += 1;
    }
    match try_build(BufferChoice::DeviceDefault) {
        Ok(stream) => {
            assert(ladder()[3] == BufferChoice::DeviceDefault);
            Ok((stream, BufferChoice::DeviceDefault))
        },
        Err(error) => {
            assert(try_build.ensures((ladder()[3],), Err::<S, AudioError>(error)));
            assert(refused::<S, F>(try_build, ladder()[3]));
            Err(error)
        },
    }
}

/// The correction in hundredths of a decibel that brings a sound of loudness
/// `sound_lufs` to `target_lufs`, both in hundredths of a loudness unit: their
/// difference, held within twelve decibels either way. Zero when
/// normalisation is off or the loudness was not measured.
pub open spec fn lufs_gain_centibel(sound_lufs: Option<i32>, target_lufs: i32, enabled: bool) -> int {
    if !enabled || sound_lufs is None {
        0
    } else {
        let diff = target_lufs - sound_lufs->0;
        if diff < -MAX_GAIN_CENTIBEL {
            -MAX_GAIN_CENTIBEL as int
        } else if diff > MAX_GAIN_CENTIBEL {
            MAX_GAIN_CENTIBEL as int
        } else {
            diff
        }
    }
}

/// Computes the loudness correction, see [`lufs_gain_centibel`].
pub fn calculate_lufs_gain(sound_lufs: Option<i32>, target_lufs: i32, enabled: bool) -> (gain: i32)
    ensures
        gain == lufs_gain_centibel(sound_lufs, target_lufs, enabled),
        -MAX_GAIN_CENTIBEL <= gain <= MAX_GAIN_CENTIBEL,
{
    if !enabled {
        return 0;
    }
    match sound_lufs {
        Some(lufs) => {
            let diff: i64 = (target_lufs as i64) - (lufs as i64);
            if diff < -(MAX_GAIN_CENTIBEL as i64) {
                -MAX_GAIN_CENTIBEL
            } else if diff > MAX_GAIN_CENTIBEL as i64 {
                MAX_GAIN_CENTIBEL
            } else {
                diff as i32
            }
        },
        None => 0,
    }
}

impl StreamPlan {
    /// A plan is usable when rates and channel counts are positive and the
    /// end lies within the source.
    pub open spec fn wf(&self) -> bool {
        &&& self.source_rate > 0
        &&& self.device_rate > 0
        &&& self.source_channels > 0
        &&& self.device_channels > 0
        &&& self.end_frame <= self.sample_count / (self.source_channels as usize)
    }

    /// Whether `cursor` is a position of this plan.
    pub open spec fn holds(&self, cursor: Cursor) -> bool {
        cursor.phase < self.device_rate && (cursor.frame >= self.end_frame ==> cursor.phase == 0)
    }

    /// What the output sample on `channel` is made of while the stream stands
    /// at `cursor`.
    ///
    /// A stream that has reached its end is silent. A device channel that the
    /// source does not have is silent. Otherwise the sample blends the
    /// source's frame at the cursor with the next one, weighted by the
    /// cursor's fraction; where the source has no next frame, it is the frame
    /// at the cursor alone.
    pub open spec fn slot_at(&self, cursor: Cursor, channel: nat) -> Slot {
        if cursor.frame >= self.end_frame || channel >= self.source_channels {
            Slot::Silence
        } else {
            let lower = cursor.frame * self.source_channels + channel;
            let upper = (cursor.frame + 1) * self.source_channels + channel;
            if upper < self.sample_count {
                Slot::Blend {
                    lower: lower as usize,
                    upper: upper as usize,
                    num: cursor.phase,
                    den: self.device_rate,
                }
            } else if lower < self.sample_count {
                Slot::Hold { index: lower as usize }
            } else {
                Slot::Silence
            }
        }
    }

    /// The position one output frame after `cursor`. A stream at its end
    /// stays there; one that would pass its end stops at it.
    pub open spec fn step(&self, cursor: Cursor) -> Cursor {
        if cursor.frame >= self.end_frame {
            cursor
        } else {
            let num = cursor.phase + self.source_rate;
            let frame = cursor.frame + num / (self.device_rate as int);
            if frame >= self.end_frame {
                Cursor { frame: self.end_frame, phase: 0 }
            } else {
                Cursor { frame: frame as usize, phase: (num % (self.device_rate as int)) as u32 }
            }
        }
    }

    /// The position `frames` output frames after `cursor`.
    pub open spec fn steps(&self, cursor: Cursor, frames: nat) -> Cursor
        decreases frames,
    {
        if frames == 0 {
            cursor
        } else {
            self.step(self.steps(cursor, (frames - 1) as nat))
        }
    }

    /// What output sample `i` of a block is made of, for a block that begins
    /// at `cursor`: sample `i` lies in output frame `i / device_channels` on
    /// channel `i % device_channels`.
    pub open spec fn block_slot(&self, cursor: Cursor, i: nat) -> Slot {
        self.slot_at(
            self.steps(cursor, i / (self.device_channels as nat)),
            i % (self.device_channels as nat),
        )
    }

    /// Output frames that a block of `len` samples touches; a trailing
    /// partial frame counts.
    pub open spec fn frames_touched(&self, len: nat) -> nat {
        (len + self.device_channels - 1) as nat / (self.device_channels as nat)
    }

    /// Plans a stream over a source of `sample_count` interleaved samples.
    ///
    /// The stream starts at `start_frame`, or at the first frame, and ends
    /// before `end_frame`, or at the end of the source if that comes first.
    /// Returns `None` if a rate or a channel count is zero.
    pub fn new(
        sample_count: usize,
        source_rate: u32,
        source_channels: u16,
        device_rate: u32,
        device_channels: u16,
        start_frame: Option<usize>,
        end_frame: Option<usize>,
    ) -> (planned: Option<(StreamPlan, Cursor)>)
        ensures
            planned is None <==> (source_rate == 0 || device_rate == 0 || source_channels == 0
                || device_channels == 0),
            planned matches Some((plan, cursor)) ==> {
                &&& plan.wf()
                &&& plan.holds(cursor)
                &&& plan.source_rate == source_rate
                &&& plan.device_rate == device_rate
                &&& plan.source_channels == source_channels
                &&& plan.device_channels == device_channels
                &&& plan.sample_count == sample_count
                &&& plan.end_frame == window_end(sample_count, source_channels as nat, end_frame)
                &&& cursor.phase == 0
                &&& cursor.frame == match start_frame {
                    Some(f) => f,
                    None => 0,
                }
            },
    {
        if source_rate == 0 || device_rate == 0 || source_channels == 0 || device_channels == 0 {
            return None;
        }
        let total: usize = sample_count / (source_channels as usize);
        let end: usize = match end_frame {
            Some(e) => if e < total {
                e
            } else {
                total
            },
            None => total,
        };
        let start: usize = match start_frame {
            Some(f) => f,
            None => 0,
        };
        let plan = StreamPlan {
            source_rate,
            device_rate,
            source_channels,
            device_channels,
            sample_count,
            end_frame: end,
        };
        Some((plan, Cursor { frame: start, phase: 0 }))
    }

    /// Says what the output sample on `channel` is made of, see
    /// [`StreamPlan::slot_at`].
    pub fn slot(&self, cursor: &Cursor, channel: usize) -> (slot: Slot)
        requires
            self.wf(),
        ensures
            slot == self.slot_at(*cursor, channel as nat),
    {
        if cursor.frame >= self.end_frame || channel >= self.source_channels as usize {
            return Slot::Silence;
        }
        let channels: usize = self.source_channels as usize;
        let total: usize = self.sample_count / channels;
        proof {
            lemma_frame_in_source(
                self.sample_count as int,
                channels as int,
                cursor.frame as int,
                channel as int,
            );
        }
        let lower: usize = cursor.frame * channels + channel;
        // Samples that follow the frame at the cursor.
        let rest: usize = self.sample_count - (cursor.frame + 1) * channels;
        if channel < rest {
            let upper: usize = (cursor.frame + 1) * channels + channel;
            Slot::Blend { lower, upper, num: cursor.phase, den: self.device_rate }
        } else {
            Slot::Hold { index: lower }
        }
    }

    /// Moves `cursor` on by one output frame, see [`StreamPlan::step`].
    pub fn advance(&self, cursor: &mut Cursor)
        requires
            self.wf(),
            self.holds(*old(cursor)),
        ensures
            *final(cursor) == self.step(*old(cursor)),
            self.holds(*final(cursor)),
    {
        if cursor.frame >= self.end_frame {
            return ;
        }
        let num: u64 = (cursor.phase as u64) + (self.source_rate as u64);
        let whole: u64 = num / (self.device_rate as u64);
        let left: usize = self.end_frame - cursor.frame;
        if whole >= left as u64 {
            cursor.frame = self.end_frame;
            cursor.phase = 0;
        } else {
            cursor.frame = cursor.frame + (whole as usize);
            cursor.phase = (num % (self.device_rate as u64)) as u32;
        }
    }

    /// Plans a block of `len` output samples that begins at `cursor`, and
    /// moves `cursor` past the block.
    pub fn plan_block(&self, cursor: &mut Cursor, len: usize) -> (slots: Vec<Slot>)
        requires
            self.wf(),
            self.holds(*old(cursor)),
        ensures
            slots@.len() == len,
            forall|i: int| 0 <= i < len ==> slots@[i] == self.block_slot(*old(cursor), i as nat),
            *final(cursor) == self.steps(*old(cursor), self.frames_touched(len as nat)),
            self.holds(*final(cursor)),
    {
        let mut slots: Vec<Slot> = Vec::new();
        self.plan_block_into(cursor, &mut slots, len);
        slots
    }

    /// Plans a block as [`StreamPlan::plan_block`] does, into a vector that
    /// the caller keeps from block to block. What the vector held is
    /// discarded.
    pub fn plan_block_into(&self, cursor: &mut Cursor, slots: &mut Vec<Slot>, len: usize)
        requires
            self.wf(),
            self.holds(*old(cursor)),
        ensures
            final(slots)@.len() == len,
            forall|i: int|
                0 <= i < len ==> final(slots)@[i] == self.block_slot(*old(cursor), i as nat),
            *final(cursor) == self.steps(*old(cursor), self.frames_touched(len as nat)),
            self.holds(*final(cursor)),
    {
        let width: usize = self.device_channels as usize;
        slots.clear();
        let mut i: usize = 0;
        let mut channel: usize = 0;
        let ghost mut frames: nat = 0;
        let ghost start = *cursor;
        while i < len
            invariant
                self.wf(),
                width == self.device_channels,
                0 <= i <= len,
                0 <= channel < width,
                i == frames * width + channel,
                slots@.len() == i,
                self.holds(*cursor),
                *cursor == self.steps(start, frames),
                forall|k: int| 0 <= k < i ==> slots@[k] == self.block_slot(start, k as nat),
            decreases len - i,
        {
            proof {
                lemma_fundamental_div_mod_converse(
                    i as int,
                    width as int,
                    frames as int,
                    channel as int,
                );
            }
            let slot = self.slot(cursor, channel);
            slots.push(slot);
            i += 1;
            channel += 1;
            if channel == width {
                self.advance(cursor);
                channel = 0;
                proof {
                    frames = frames + 1;
                    assert(i == frames * width) by (nonlinear_arith)
                        requires
                            i == (frames - 1) * width + width,
                    ;
                }
            }
        }
        proof {
            // A trailing partial frame still moves the stream on.
            if channel > 0 {
                assert(len + width - 1 == (frames + 1) * width + (channel - 1)) by (nonlinear_arith)
                    requires
                        len == frames * width + channel,
                ;
                lemma_fundamental_div_mod_converse(
                    (len + width - 1) as int,
                    width as int,
                    frames as int + 1,
                    channel as int - 1,
                );
            } else {
                assert(len + width - 1 == frames * width + (width - 1));
                lemma_fundamental_div_mod_converse(
                    (len + width - 1) as int,
                    width as int,
                    frames as int,
                    width as int - 1,
                );
            }
        }
        if channel > 0 {
            self.advance(cursor);
        }
    }
}

/// A frame before the last whole frame's end lies within the samples, with
/// all its channels.
proof fn lemma_frame_in_source(sample_count: int, channels: int, frame: int, channel: int)
    requires
        channels > 0,
        sample_count >= 0,
        0 <= frame < sample_count / channels,
        0 <= channel < channels,
    ensures
        frame * channels + channel < sample_count,
        (frame + 1) * channels <= sample_count,
        (frame + 1) * channels == frame * channels + channels,
        frame * channels >= 0,
{
    lemma_fundamental_div_mod(sample_count, channels);
    let whole = sample_count / channels;
    assert(channels * whole <= sample_count);
    assert((frame + 1) * channels <= channels * whole) by (nonlinear_arith)
        requires
            frame + 1 <= whole,
            channels > 0,
    ;
    assert((frame + 1) * channels == frame * channels + channels) by (nonlinear_arith);
    assert(frame * channels >= 0) by (nonlinear_arith)
        requires
            frame >= 0,
            channels > 0,
    ;
}

/// The frame at which a stream over `sample_count` samples ends: the
/// requested end, or the end of the source if that comes first.
pub open spec fn window_end(sample_count: usize, channels: nat, end_frame: Option<usize>) -> nat {
    let total = sample_count as nat / channels;
    match end_frame {
        Some(e) => if e < total {
            e as nat
        } else {
            total
        },
        None => total,
    }
}

/// A device channel beyond the source's channels is silent in every output
/// frame, whatever the position of the stream.
pub proof fn law_extra_channels_silent(plan: StreamPlan, cursor: Cursor, channel: nat)
    requires
        plan.wf(),
        channel >= plan.source_channels,
    ensures
        plan.slot_at(cursor, channel) == Slot::Silence,
{
}

/// In a block, every sample on a device channel beyond the source's channels
/// is silent.
pub proof fn law_block_extra_channels_silent(plan: StreamPlan, cursor: Cursor, i: nat)
    requires
        plan.wf(),
        i % (plan.device_channels as nat) >= plan.source_channels,
    ensures
        plan.block_slot(cursor, i) == Slot::Silence,
{
}

/// Once a stream has reached its end it stays there, and all it plays from
/// then on is silence.
pub proof fn law_silent_after_end(plan: StreamPlan, cursor: Cursor, frames: nat, channel: nat)
    requires
        plan.wf(),
        cursor.frame >= plan.end_frame,
    ensures
        plan.steps(cursor, frames) == cursor,
        plan.slot_at(plan.steps(cursor, frames), channel) == Slot::Silence,
    decreases frames,
{
    if frames > 0 {
        law_silent_after_end(plan, cursor, (frames - 1) as nat, channel);
    }
}

/// The position is linear in the number of output frames: a stream that
/// started on frame `start` has, after `frames` output frames and as long as
/// it has not reached its end, advanced by exactly
/// `frames * source_rate / device_rate` source frames.
pub proof fn law_position_linear(plan: StreamPlan, start: usize, frames: nat)
    requires
        plan.wf(),
        (start * plan.device_rate + frames * plan.source_rate) / (plan.device_rate as int)
            < plan.end_frame,
    ensures
        plan.steps(Cursor { frame: start, phase: 0 }, frames).frame == (start * plan.device_rate
            + frames * plan.source_rate) / (plan.device_rate as int),
        plan.steps(Cursor { frame: start, phase: 0 }, frames).phase == (start * plan.device_rate
            + frames * plan.source_rate) % (plan.device_rate as int),
    decreases frames,
{
    let rate = plan.device_rate as int;
    let origin = Cursor { frame: start, phase: 0 };
    let total = start * plan.device_rate + frames * plan.source_rate;
    if frames == 0 {
        assert(frames * plan.source_rate == 0) by (nonlinear_arith)
            requires
                frames == 0,
        ;
        assert(total == start * rate);
        lemma_fundamental_div_mod_converse(total, rate, start as int, 0);
    } else {
        let earlier = start * plan.device_rate + (frames - 1) * plan.source_rate;
        assert(total == earlier + plan.source_rate) by (nonlinear_arith)
            requires
                total == start * plan.device_rate + frames * plan.source_rate,
                earlier == start * plan.device_rate + (frames - 1) * plan.source_rate,
        ;
        lemma_fundamental_div_mod(earlier, rate);
        lemma_fundamental_div_mod(total, rate);
        assert(earlier / rate <= total / rate) by {
            lemma_div_is_ordered(earlier, total, rate);
        }
        law_position_linear(plan, start, (frames - 1) as nat);
        let before = plan.steps(origin, (frames - 1) as nat);
        let num = before.phase + plan.source_rate;
        lemma_fundamental_div_mod(num as int, rate);
        // total = rate * (before.frame + num / rate) + num % rate
        assert(total == rate * (before.frame + num / rate) + num % rate) by (nonlinear_arith)
            requires
                total == earlier + plan.source_rate,
                earlier == rate * before.frame + before.phase,
                num == before.phase + plan.source_rate,
                num == rate * (num / rate) + num % rate,
        ;
        lemma_fundamental_div_mod_converse(total, rate, before.frame + num / rate, num % rate);
    }
}

/// At equal source and device rates the stream moves one source frame per
/// output frame and never stands between two frames: every audible sample is
/// taken from the source with a weight of zero for its neighbour.
pub proof fn law_unit_ratio_exact(plan: StreamPlan, start: usize, frames: nat, channel: nat)
    requires
        plan.wf(),
        plan.source_rate == plan.device_rate,
        start + frames < plan.end_frame,
        channel < plan.source_channels,
    ensures
        plan.steps(Cursor { frame: start, phase: 0 }, frames) == (Cursor {
            frame: (start + frames) as usize,
            phase: 0,
        }),
        match plan.slot_at(plan.steps(Cursor { frame: start, phase: 0 }, frames), channel) {
            Slot::Blend { lower, num, .. } => lower == (start + frames) * plan.source_channels
                + channel && num == 0,
            Slot::Hold { index } => index == (start + frames) * plan.source_channels + channel,
            Slot::Silence => false,
        },
{
    let rate = plan.device_rate as int;
    let total = start * plan.device_rate + frames * plan.source_rate;
    assert(total == rate * (start + frames)) by (nonlinear_arith)
        requires
            total == start * plan.device_rate + frames * plan.source_rate,
            plan.source_rate == plan.device_rate,
            rate == plan.device_rate,
    ;
    lemma_fundamental_div_mod_converse(total, rate, (start + frames) as int, 0);
    law_position_linear(plan, start, frames);
    lemma_frame_in_source(
        plan.sample_count as int,
        plan.source_channels as int,
        start + frames,
        channel as int,
    );
}

} // verus!
