//! What the decoder does with each packet of a file.
//!
//! Reading and decoding packets is the caller's work. The rules are here:
//! which packets count, which failures are passed over and which end the
//! decode, and when a finished decode is a success.

use vstd::prelude::*;

use crate::buffer::AudioData;
use crate::error::AudioError;

verus! {

/// Sample rate assumed for a file until a packet says otherwise.
pub const DEFAULT_SAMPLE_RATE: u32 = 48000;

/// Channel count assumed for a file until a packet says otherwise.
pub const DEFAULT_CHANNELS: u16 = 2;

/// What reading and decoding the next packet led to.
#[derive(Debug)]
pub enum PacketEvent {
    /// A packet of the chosen track was decoded to this many samples, at this
    /// rate and channel count.
    Decoded { samples: Vec<u32>, sample_rate: u32, channels: u16 },
    /// The packet belongs to another track.
    OtherTrack,
    /// The packet is corrupt.
    Corrupt,
    /// The file has ended.
    EndOfStream,
    /// The next packet could not be read.
    ReadFailed(String),
    /// The decoder failed for another reason than a corrupt packet.
    DecodeFailed(String),
}

/// What the decode loop does after an event.
#[derive(Debug)]
pub enum DecodeStep {
    /// Go on with the next packet.
    Continue,
    /// Stop reading; the decode is judged by [`DecodeState::finish`].
    Finish,
    /// Give up with this error.
    Fail(AudioError),
}

/// What has been decoded of a file so far.
#[derive(Debug)]
pub struct DecodeState {
    pub samples: Vec<u32>,
    pub sample_rate: u32,
    pub channels: u16,
}

impl DecodeState {
    /// The state before the first packet.
    pub fn new() -> (state: Self)
        ensures
            state.samples@.len() == 0,
            state.sample_rate == DEFAULT_SAMPLE_RATE,
            state.channels == DEFAULT_CHANNELS,
    {
        DecodeState {
            samples: Vec::new(),
            sample_rate: DEFAULT_SAMPLE_RATE,
            channels: DEFAULT_CHANNELS,
        }
    }

    /// Takes in what the next packet led to.
    ///
    /// A decoded packet adds its samples and sets rate and channel count. A
    /// packet of another track or a corrupt packet is passed over. The end of
    /// the file finishes the decode. Any other failure ends it with an error
    /// that carries the failure's text.
    pub fn accept(&mut self, event: PacketEvent) -> (step: DecodeStep)
        ensures
            match event {
                PacketEvent::Decoded { samples, sample_rate, channels } => {
                    &&& step is Continue
                    &&& final(self).samples@ == old(self).samples@ + samples@
                    &&& final(self).sample_rate == sample_rate
                    &&& final(self).channels == channels
                },
                PacketEvent::OtherTrack => step is Continue && *final(self) == *old(self),
                PacketEvent::Corrupt => step is Continue && *final(self) == *old(self),
                PacketEvent::EndOfStream => step is Finish && *final(self) == *old(self),
                PacketEvent::ReadFailed(text) => {
                    &&& *final(self) == *old(self)
                    &&& step matches DecodeStep::Fail(AudioError::PacketRead(t)) && t == text
                },
                PacketEvent::DecodeFailed(text) => {
                    &&& *final(self) == *old(self)
                    &&& step matches DecodeStep::Fail(AudioError::Decode(t)) && t == text
                },
            },
    {
        match event {
            PacketEvent::Decoded { mut samples, sample_rate, channels } => {
                self.sample_rate = sample_rate;
                self.channels = channels;
                self.samples.append(&mut samples);
                DecodeStep::Continue
            },
            PacketEvent::OtherTrack => DecodeStep::Continue,
            PacketEvent::Corrupt => DecodeStep::Continue,
            PacketEvent::EndOfStream => DecodeStep::Finish,
            PacketEvent::ReadFailed(text) => DecodeStep::Fail(AudioError::PacketRead(text)),
            PacketEvent::DecodeFailed(text) => DecodeStep::Fail(AudioError::Decode(text)),
        }
    }

    /// Judges a decode that has reached the end of its file: it succeeds if
    /// any samples were produced, whatever was passed over on the way, and
    /// fails with `NoData` otherwise. The loudness is not measured here.
    pub fn finish(self) -> (decoded: Result<AudioData, AudioError>)
        ensures
            match decoded {
                Ok(audio) => self.samples@.len() > 0 && audio.samples == self.samples
                    && audio.sample_rate == self.sample_rate && audio.channels == self.channels
                    && audio.lufs is None,
                Err(e) => self.samples@.len() == 0 && e is NoData,
            },
    {
        if self.samples.len() == 0 {
            return Err(AudioError::NoData);
        }
        Ok(
            AudioData {
                samples: self.samples,
                sample_rate: self.sample_rate,
                channels: self.channels,
                lufs: None,
            },
        )
    }
}

} // verus!
