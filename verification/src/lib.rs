//! Verified core of a desktop soundboard that plays each sound to two output
//! devices at once.
//!
//! The audio pipeline: [`decode`] holds the rules of decoding, [`cache`] the
//! byte-budgeted cache of decoded audio, [`manager`] the registry of playbacks
//! and the retrigger policy, [`render`] the planning of output streams,
//! [`session`] the course of one playback and [`waveform`] the peaks of a
//! sound. Around it: [`device`] and [`vbcable`] name and find devices,
//! [`routing`] routes a microphone, [`library`], [`sounds`], [`hotkeys`] and
//! [`shortcut`] keep the sounds and the keys that trigger them.
//!
//! The library computes and decides; it reads no file, opens no device and
//! neither blends nor scales sample values. Whoever uses it does those and
//! tells it what happened.

pub mod buffer;
pub mod cache;
pub mod decode;
pub mod device;
pub mod error;
pub mod hotkeys;
pub mod keyed;
pub mod library;
pub mod lru_store;
pub mod manager;
pub mod render;
pub mod routing;
pub mod session;
pub mod settings;
pub mod shortcut;
pub mod sounds;
pub mod text;
pub mod vbcable;
pub mod waveform;

pub use buffer::AudioData;
pub use cache::{AudioCache, CacheStats};
pub use device::{AudioDevice, DeviceId};
pub use error::AudioError;
pub use hotkeys::HotkeyMappings;
pub use library::{Sound, SoundLibrary};
pub use lru_store::FileStamp;
pub use manager::{AudioManager, PlaybackResult, SoundState, StopSignal, TriggerDecision};
pub use session::{PlaybackProgress, PlaybackSession, SessionPhase, WaitStep};
pub use sounds::{Category, CategoryId, SoundId};
pub use waveform::WaveformData;
