//! Routing of a microphone into the virtual cable: the state of the routing,
//! the ring buffer between the capturing and the playing stream, and the
//! mapping of channels from the one to the other.

use vstd::arithmetic::div_mod::{lemma_fundamental_div_mod, lemma_fundamental_div_mod_converse};
use vstd::prelude::*;

use crate::keyed::text_eq;

verus! {

/// Smallest capacity of the ring buffer, in samples.
pub const MIN_RING_CAPACITY: usize = 4096;

/// Whether a microphone is routed, and which.
#[derive(Debug, Clone)]
pub struct MicRouting {
    /// Identifier of the routed microphone.
    pub microphone_id: Option<String>,
}

/// What a request to route a microphone leads to.
#[derive(Clone, Copy, Debug, PartialEq, Eq, Structural)]
pub enum EnableStep {
    /// This microphone is routed already; there is nothing to do.
    AlreadyActive,
    /// No microphone is routed; the streams can be built.
    Proceed,
}

/// How the channels of the microphone go to the channels of the cable.
#[derive(Clone, Copy, Debug, PartialEq, Eq, Structural)]
pub enum ChannelMap {
    /// Both have the same channels: samples pass as they are.
    Same,
    /// One channel to two: each sample goes to both.
    MonoToStereo,
    /// Two channels to one: each pair of samples is averaged.
    StereoToMono,
    /// Any other pair of counts: samples pass as they are.
    Passthrough,
}

/// The message for a request to route a second microphone.
pub open spec fn busy_message() -> Seq<char> {
    "Routing already active with different microphone. Disable first."@
}

/// The capacity of the ring buffer for a tenth of a second of audio, but no
/// less than [`MIN_RING_CAPACITY`] and no more than the machine can count.
pub open spec fn capacity_for(sample_rate: u32, channels: u16) -> nat {
    let tenth = sample_rate as nat * channels as nat / 10;
    if tenth < MIN_RING_CAPACITY {
        MIN_RING_CAPACITY as nat
    } else if tenth > usize::MAX {
        usize::MAX as nat
    } else {
        tenth
    }
}

impl MicRouting {
    /// No microphone is routed.
    pub fn new() -> (state: Self)
        ensures
            state.microphone_id is None,
    {
        MicRouting { microphone_id: None }
    }

    /// Decides on a request to route `microphone_id`.
    ///
    /// Routing the routed microphone again is accepted and changes nothing.
    /// Routing another while one is routed is refused.
    pub fn begin_enable(&self, microphone_id: &str) -> (step: Result<EnableStep, String>)
        ensures
            match step {
                Ok(EnableStep::AlreadyActive) => self.microphone_id matches Some(id) && id@
                    == microphone_id@,
                Ok(EnableStep::Proceed) => self.microphone_id is None,
                Err(message) => (self.microphone_id matches Some(id) && id@ != microphone_id@)
                    && message@ == busy_message(),
            },
    {
        match &self.microphone_id {
            Some(existing) => {
                if text_eq(existing.as_str(), microphone_id) {
                    Ok(EnableStep::AlreadyActive)
                } else {
                    Err(
                        String::from_str(
                            "Routing already active with different microphone. Disable first.",
                        ),
                    )
                }
            },
            None => Ok(EnableStep::Proceed),
        }
    }

    /// Records that `microphone_id` is routed from now on.
    pub fn activate(&mut self, microphone_id: &str)
        ensures
            final(self).microphone_id matches Some(id) && id@ == microphone_id@,
    {
        self.microphone_id = Some(String::from_str(microphone_id));
    }
}

/// Ends the routing and returns the microphone that was routed, if one was.
pub fn disable_routing(state: &mut MicRouting) -> (stopped: Option<String>)
    ensures
        final(state).microphone_id is None,
        stopped == old(state).microphone_id,
{
    let mut stopped: Option<String> = None;
    std::mem::swap(&mut state.microphone_id, &mut stopped);
    stopped
}

/// The microphone that is routed, if one is.
pub fn get_routing_status(state: &MicRouting) -> (active: Option<String>)
    ensures
        active == state.microphone_id,
{
    match &state.microphone_id {
        Some(id) => Some(id.clone()),
        None => None,
    }
}

/// Computes the capacity of the ring buffer, see [`capacity_for`].
pub fn ring_capacity(sample_rate: u32, channels: u16) -> (capacity: usize)
    ensures
        capacity == capacity_for(sample_rate, channels),
        capacity >= MIN_RING_CAPACITY,
{
    proof {
        assert((sample_rate as int) * (channels as int) <= 0xFFFF_FFFF * 0xFFFF) by (nonlinear_arith)
            requires
                0 <= sample_rate <= 0xFFFF_FFFF,
                0 <= channels <= 0xFFFF,
        ;
    }
    let tenth: u64 = (sample_rate as u64) * (channels as u64) / 10;
    if tenth < MIN_RING_CAPACITY as u64 {
        MIN_RING_CAPACITY
    } else if tenth > usize::MAX as u64 {
        usize::MAX
    } else {
        tenth as usize
    }
}

/// Chooses the mapping for a microphone with `input_channels` channels and a
/// cable with `output_channels`.
pub fn channel_map(input_channels: u16, output_channels: u16) -> (map: ChannelMap)
    ensures
        map == if input_channels == output_channels {
            ChannelMap::Same
        } else if input_channels == 1 && output_channels == 2 {
            ChannelMap::MonoToStereo
        } else if input_channels == 2 && output_channels == 1 {
            ChannelMap::StereoToMono
        } else {
            ChannelMap::Passthrough
        },
{
    if input_channels == output_channels {
        ChannelMap::Same
    } else if input_channels == 1 && output_channels == 2 {
        ChannelMap::MonoToStereo
    } else if input_channels == 2 && output_channels == 1 {
        ChannelMap::StereoToMono
    } else {
        ChannelMap::Passthrough
    }
}

/// `content` after `samples` have been written into it one by one from
/// position `from` on, going round at the end.
pub open spec fn written<T>(content: Seq<T>, from: int, samples: Seq<T>) -> Seq<T>
    decreases samples.len(),
{
    if samples.len() == 0 {
        content
    } else {
        written(content, from, samples.drop_last()).update(
            (from + samples.len() - 1) % (content.len() as int),
            samples.last(),
        )
    }
}

/// Ring buffer for transferring audio between input and output streams
pub struct RingBuffer<T> {
    buffer: Vec<T>,
    write_pos: usize,
    read_pos: usize,
    capacity: usize,
}

impl<T: Copy> RingBuffer<T> {
    /// What the buffer holds, by position.
    pub closed spec fn content(&self) -> Seq<T> {
        self.buffer@
    }

    /// Where the next sample is written.
    pub closed spec fn write_at(&self) -> int {
        self.write_pos as int
    }

    /// Where the next sample is read.
    pub closed spec fn read_at(&self) -> int {
        self.read_pos as int
    }

    /// The buffer's invariant: it has room for at least one sample, and both
    /// positions lie within it.
    pub closed spec fn wf(&self) -> bool {
        &&& self.capacity > 0
        &&& self.buffer@.len() == self.capacity
        &&& self.write_pos < self.capacity
        &&& self.read_pos < self.capacity
    }

    /// Create a new ring buffer with prefilled silence
    ///
    /// The buffer holds `capacity` copies of `silence`, and writing starts
    /// half the capacity ahead of reading, so that the reader does not run
    /// dry while the writer is starting up.
    pub fn new(capacity: usize, silence: T) -> (ring: Self)
        requires
            capacity > 0,
        ensures
            ring.wf(),
            ring.content().len() == capacity,
            forall|i: int| 0 <= i < capacity ==> ring.content()[i] == silence,
            ring.write_at() == capacity / 2,
            ring.read_at() == 0,
    {
        let mut buffer: Vec<T> = Vec::new();
        let mut i: usize = 0;
        while i < capacity
            invariant
                0 <= i <= capacity,
                buffer@.len() == i,
                forall|k: int| 0 <= k < i ==> buffer@[k] == silence,
            decreases capacity - i,
        {
            buffer.push(silence);
            i += 1;
        }
        RingBuffer { buffer, write_pos: capacity / 2, read_pos: 0, capacity }
    }

    /// The number of samples the buffer has room for.
    pub fn capacity(&self) -> (capacity: usize)
        requires
            self.wf(),
        ensures
            capacity == self.content().len(),
    {
        self.capacity
    }

    /// Where the next sample is written.
    pub fn write_pos(&self) -> (pos: usize)
        ensures
            pos == self.write_at(),
    {
        self.write_pos
    }

    /// Where the next sample is read.
    pub fn read_pos(&self) -> (pos: usize)
        ensures
            pos == self.read_at(),
    {
        self.read_pos
    }

    /// Writes `samples` one by one, going round at the end of the buffer.
    /// What is written over is lost.
    pub fn write(&mut self, samples: &[T])
        requires
            old(self).wf(),
        ensures
            final(self).wf(),
            final(self).content() == written(old(self).content(), old(self).write_at(), samples@),
            final(self).write_at() == (old(self).write_at() + samples@.len()) % (old(self).content().len() as int),
            final(self).read_at() == old(self).read_at(),
    {
        let ghost start = self.write_pos as int;
        let ghost before = self.buffer@;
        let count: usize = samples.len();
        let mut k: usize = 0;
        proof {
            lemma_fundamental_div_mod_converse(start, self.capacity as int, 0, start);
            assert(samples@.subrange(0, 0) =~= Seq::<T>::empty());
        }
        while k < count
            invariant
                0 <= k <= count,
                count == samples@.len(),
                self.wf(),
                self.capacity == old(self).capacity,
                self.read_pos == old(self).read_pos,
                0 <= start,
                self.write_pos == (start + k) % (self.capacity as int),
                self.buffer@ == written(before, start, samples@.subrange(0, k as int)),
                before.len() == self.capacity,
            decreases count - k,
        {
            proof {
                let next = samples@.subrange(0, k + 1);
                assert(next.drop_last() =~= samples@.subrange(0, k as int));
                assert(next.last() == samples@[k as int]);
                lemma_next_position(start + k, self.capacity as int);
            }
            self.buffer.set(self.write_pos, samples[k]);
            self.write_pos = (self.write_pos + 1) % self.capacity;
            k += 1;
        }
        proof {
            assert(samples@.subrange(0, count as int) =~= samples@);
        }
    }

    /// Reads as many samples as `output` holds, one by one, going round at
    /// the end of the buffer, and puts them in place of what `output` held.
    pub fn read(&mut self, output: &mut Vec<T>)
        requires
            old(self).wf(),
        ensures
            final(self).wf(),
            final(self).content() == old(self).content(),
            final(self).write_at() == old(self).write_at(),
            final(output)@.len() == old(output)@.len(),
            forall|i: int|
                0 <= i < old(output)@.len() ==> final(output)@[i] == old(self).content()[(old(self).read_at() + i) % (old(self).content().len() as int)],
            final(self).read_at() == (old(self).read_at() + old(output)@.len()) % (old(self).content().len() as int),
    {
        let ghost start = self.read_pos as int;
        let count: usize = output.len();
        let mut k: usize = 0;
        proof {
            lemma_fundamental_div_mod_converse(start, self.capacity as int, 0, start);
        }
        while k < count
            invariant
                0 <= k <= count,
                count == output@.len(),
                self.wf(),
                self.capacity == old(self).capacity,
                self.buffer@ == old(self).buffer@,
                self.write_pos == old(self).write_pos,
                0 <= start,
                self.read_pos == (start + k) % (self.capacity as int),
                forall|i: int|
                    0 <= i < k ==> output@[i] == self.buffer@[(start + i) % (self.capacity as int)],
            decreases count - k,
        {
            proof {
                lemma_next_position(start + k, self.capacity as int);
            }
            output.set(k, self.buffer[self.read_pos]);
            self.read_pos = (self.read_pos + 1) % self.capacity;
            k += 1;
        }
    }
}

/// Going on by one from a position that was reached by going round is going
/// round to the position after it.
proof fn lemma_next_position(steps: int, capacity: int)
    requires
        steps >= 0,
        capacity > 0,
    ensures
        0 <= steps % capacity < capacity,
        (steps % capacity + 1) % capacity == (steps + 1) % capacity,
{
    lemma_fundamental_div_mod(steps, capacity);
    let q = steps / capacity;
    let r = steps % capacity;
    if r + 1 < capacity {
        assert(steps + 1 == q * capacity + (r + 1)) by (nonlinear_arith)
            requires
                steps == capacity * q + r,
        ;
        lemma_fundamental_div_mod_converse(steps + 1, capacity, q, r + 1);
        lemma_fundamental_div_mod_converse(r + 1, capacity, 0, r + 1);
    } else {
        assert(steps + 1 == (q + 1) * capacity + 0) by (nonlinear_arith)
            requires
                steps == capacity * q + r,
                r + 1 == capacity,
        ;
        lemma_fundamental_div_mod_converse(steps + 1, capacity, q + 1, 0);
        lemma_fundamental_div_mod_converse(r + 1, capacity, 1, 0);
    }
}

/// What was written is what is read: after `samples`, no more than the
/// buffer has room for, have been written at a position, reading from that
/// position gives them back in order.
pub proof fn law_read_back<T>(content: Seq<T>, from: int, samples: Seq<T>, i: int)
    requires
        content.len() > 0,
        0 <= from,
        samples.len() <= content.len(),
        0 <= i < samples.len(),
    ensures
        written(content, from, samples).len() == content.len(),
        written(content, from, samples)[(from + i) % (content.len() as int)] == samples[i],
    decreases samples.len(),
{
    let capacity = content.len() as int;
    lemma_written_len(content, from, samples);
    lemma_written_len(content, from, samples.drop_last());
    let last = samples.len() - 1;
    lemma_fundamental_div_mod(from + i, capacity);
    lemma_fundamental_div_mod(from + last, capacity);
    if i < last {
        law_read_back(content, from, samples.drop_last(), i);
        // Two positions less than a round apart are different.
        if (from + i) % capacity == (from + last) % capacity {
            let qa = (from + i) / capacity;
            let qb = (from + last) / capacity;
            assert(last - i == capacity * (qb - qa)) by (nonlinear_arith)
                requires
                    from + i == capacity * qa + (from + i) % capacity,
                    from + last == capacity * qb + (from + last) % capacity,
                    (from + i) % capacity == (from + last) % capacity,
            ;
            assert(false) by (nonlinear_arith)
                requires
                    last - i == capacity * (qb - qa),
                    0 < last - i < capacity,
            ;
        }
    }
}

proof fn lemma_written_len<T>(content: Seq<T>, from: int, samples: Seq<T>)
    requires
        content.len() > 0,
        0 <= from,
    ensures
        written(content, from, samples).len() == content.len(),
    decreases samples.len(),
{
    if samples.len() > 0 {
        lemma_written_len(content, from, samples.drop_last());
        lemma_next_position(from + samples.len() - 1, content.len() as int);
    }
}

} // verus!
