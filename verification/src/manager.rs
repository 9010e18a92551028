//! Playback registry and retrigger policy.
//!
//! The manager keeps two tables. The registry maps the identifier of every
//! playback in flight to the handle that cancels it. The sound table maps a
//! logical sound to the playback that currently stands for it, and decides
//! what a new trigger of that sound does.

use vstd::prelude::*;

use crate::keyed::{text_eq, StringMap};
use crate::text::{append_decimal, decimal_digits};

verus! {

/// Time that a sound must have been audible before a new trigger restarts it,
/// in milliseconds.
pub const MIN_PLAY_TIME_MS: u64 = 15;

/// A handle that tells one playback to stop.
pub trait StopSignal {
    /// Tells the playback to stop. A playback that has already ended ignores
    /// it.
    fn signal(&self);
}

/// What stands for a sound while one of its playbacks is alive.
#[derive(Debug, Clone)]
pub enum SoundState {
    /// The playback is registered but not audible yet.
    Decoding { playback_id: String },
    /// The playback's streams are live since `started_at`, a reading of the
    /// caller's monotonic clock in milliseconds.
    Playing { playback_id: String, started_at: u64 },
}

/// What a trigger of a sound leads to.
#[derive(Debug, Clone)]
pub enum TriggerDecision {
    /// Nothing stood for the sound: the new playback starts.
    Start,
    /// The new playback takes over from `old_playback_id`, which the caller
    /// stops once the new one is audible.
    Restart { old_playback_id: String },
    /// The sound became audible too recently: the trigger is dropped.
    Ignore,
}

/// A decision as a value of the model.
pub enum DecisionModel {
    Start,
    Restart { old_playback_id: Seq<char> },
    Ignore,
}

impl View for TriggerDecision {
    type V = DecisionModel;

    open spec fn view(&self) -> DecisionModel {
        match *self {
            TriggerDecision::Start => DecisionModel::Start,
            TriggerDecision::Restart { old_playback_id } => DecisionModel::Restart {
                old_playback_id: old_playback_id@,
            },
            TriggerDecision::Ignore => DecisionModel::Ignore,
        }
    }
}

/// What a play request led to.
#[derive(Debug, Clone)]
pub struct PlaybackResult {
    /// The new playback's identifier, unless the request was ignored.
    pub playback_id: Option<String>,
    /// `started`, `restarted` or `ignored`.
    pub action: String,
    /// The playback that the new one replaces, if it replaces one.
    pub stopped_playback_id: Option<String>,
}

/// A sound's state as a value of the model: identifiers as sequences of
/// characters.
pub enum SoundModel {
    Decoding { playback_id: Seq<char> },
    Playing { playback_id: Seq<char>, started_at: u64 },
}

impl View for SoundState {
    type V = SoundModel;

    open spec fn view(&self) -> SoundModel {
        match *self {
            SoundState::Decoding { playback_id } => SoundModel::Decoding {
                playback_id: playback_id@,
            },
            SoundState::Playing { playback_id, started_at } => SoundModel::Playing {
                playback_id: playback_id@,
                started_at,
            },
        }
    }
}

/// A play request's result as a value of the model.
pub struct ResultModel {
    pub playback_id: Option<Seq<char>>,
    pub action: Seq<char>,
    pub stopped_playback_id: Option<Seq<char>>,
}

impl View for PlaybackResult {
    type V = ResultModel;

    open spec fn view(&self) -> ResultModel {
        ResultModel {
            playback_id: match self.playback_id {
                Some(id) => Some(id@),
                None => None,
            },
            action: self.action@,
            stopped_playback_id: match self.stopped_playback_id {
                Some(id) => Some(id@),
                None => None,
            },
        }
    }
}

/// The identifier of the playback behind a state.
pub open spec fn state_playback(state: SoundModel) -> Seq<char> {
    match state {
        SoundModel::Decoding { playback_id } => playback_id,
        SoundModel::Playing { playback_id, .. } => playback_id,
    }
}

/// Milliseconds from `started_at` to `now`, zero if the clock reads earlier.
pub open spec fn elapsed_since(started_at: u64, now: u64) -> nat {
    if now >= started_at {
        (now - started_at) as nat
    } else {
        0
    }
}

/// Whether a trigger at `now` falls into the cooldown of `state`. Only an
/// audible sound has a cooldown.
pub open spec fn in_cooldown(state: SoundModel, now: u64) -> bool {
    match state {
        SoundModel::Decoding { .. } => false,
        SoundModel::Playing { started_at, .. } => elapsed_since(started_at, now)
            < MIN_PLAY_TIME_MS,
    }
}

/// The text of the `n`th playback identifier.
pub open spec fn playback_text(n: nat) -> Seq<char> {
    "playback_"@ + decimal_digits(n)
}

impl SoundState {
    /// The identifier of the playback that the state belongs to.
    pub fn playback_id(&self) -> (id: &str)
        ensures
            id@ == state_playback(self@),
    {
        match self {
            SoundState::Decoding { playback_id } => playback_id.as_str(),
            SoundState::Playing { playback_id, .. } => playback_id.as_str(),
        }
    }

    /// A copy of the state.
    pub fn duplicate(&self) -> (copy: SoundState)
        ensures
            copy == *self,
    {
        match self {
            SoundState::Decoding { playback_id } => SoundState::Decoding {
                playback_id: playback_id.clone(),
            },
            SoundState::Playing { playback_id, started_at } => SoundState::Playing {
                playback_id: playback_id.clone(),
                started_at: *started_at,
            },
        }
    }
}

/// Registry of playbacks in flight and table of active sounds.
pub struct AudioManager<C: StopSignal> {
    stop_senders: StringMap<C>,
    playback_counter: u64,
    active_sounds: StringMap<SoundState>,
}

impl<C: StopSignal> AudioManager<C> {
    /// The cancellation handles by playback identifier.
    pub closed spec fn registry(&self) -> Map<Seq<char>, C> {
        self.stop_senders@
    }

    /// The active sounds by sound identifier.
    pub closed spec fn sounds(&self) -> Map<Seq<char>, SoundModel> {
        self.active_sounds@.map_values(|state: SoundState| state@)
    }

    /// How many playback identifiers have been handed out.
    pub closed spec fn issued(&self) -> nat {
        self.playback_counter as nat
    }

    /// The manager's invariant.
    pub closed spec fn wf(&self) -> bool {
        self.stop_senders.wf() && self.active_sounds.wf()
    }

    /// Creates a manager with nothing registered.
    pub fn new() -> (manager: Self)
        ensures
            manager.wf(),
            manager.registry() == Map::<Seq<char>, C>::empty(),
            manager.sounds() == Map::<Seq<char>, SoundModel>::empty(),
            manager.issued() == 0,
    {
        AudioManager {
            stop_senders: StringMap::new(),
            playback_counter: 0,
            active_sounds: StringMap::new(),
        }
    }

    /// Hands out the next playback identifier: `playback_` and the count of
    /// identifiers handed out so far, this one included.
    pub fn next_playback_id(&mut self) -> (id: String)
        requires
            old(self).wf(),
            old(self).issued() < u64::MAX,
        ensures
            final(self).wf(),
            final(self).issued() == old(self).issued() + 1,
            id@ == playback_text(final(self).issued()),
            final(self).registry() == old(self).registry(),
            final(self).sounds() == old(self).sounds(),
    {
        self.playback_counter = self.playback_counter + 1;
        let mut id = String::from_str("playback_");
        append_decimal(&mut id, self.playback_counter);
        id
    }

    /// How many playback identifiers have been handed out.
    pub fn playbacks_issued(&self) -> (count: u64)
        ensures
            count == self.issued(),
    {
        self.playback_counter
    }

    /// Registers the handle that cancels `playback_id`.
    pub fn register_playback(&mut self, playback_id: String, sender: C)
        requires
            old(self).wf(),
        ensures
            final(self).wf(),
            final(self).registry() == old(self).registry().insert(playback_id@, sender),
            final(self).sounds() == old(self).sounds(),
            final(self).issued() == old(self).issued(),
    {
        self.stop_senders.insert(playback_id, sender);
    }

    /// Takes `playback_id` out of the registry without signalling it.
    pub fn unregister_playback(&mut self, playback_id: &str)
        requires
            old(self).wf(),
        ensures
            final(self).wf(),
            final(self).registry() == old(self).registry().remove(playback_id@),
            final(self).sounds() == old(self).sounds(),
            final(self).issued() == old(self).issued(),
    {
        self.stop_senders.remove(playback_id);
    }

    /// Whether `playback_id` is registered.
    pub fn is_registered(&self, playback_id: &str) -> (held: bool)
        requires
            self.wf(),
        ensures
            held == self.registry().contains_key(playback_id@),
    {
        self.stop_senders.contains_key(playback_id)
    }

    /// The number of playbacks in flight.
    pub fn active_playbacks(&self) -> (n: usize)
        requires
            self.wf(),
        ensures
            n == self.registry().dom().len(),
    {
        self.stop_senders.len()
    }

    /// Signals every registered playback to stop and empties the registry.
    pub fn stop_all(&mut self)
        requires
            old(self).wf(),
        ensures
            final(self).wf(),
            final(self).registry() == Map::<Seq<char>, C>::empty(),
            final(self).sounds() == old(self).sounds(),
            final(self).issued() == old(self).issued(),
    {
        let taken = self.stop_senders.drain();
        let mut i: usize = 0;
        while i < taken.len()
            invariant
                0 <= i <= taken@.len(),
            decreases taken@.len() - i,
        {
            taken[i].1.signal();
            i += 1;
        }
    }

    /// Signals `playback_id` to stop and takes it out of the registry.
    /// Returns whether it was registered.
    pub fn signal_stop(&mut self, playback_id: &str) -> (found: bool)
        requires
            old(self).wf(),
        ensures
            final(self).wf(),
            found == old(self).registry().contains_key(playback_id@),
            final(self).registry() == old(self).registry().remove(playback_id@),
            final(self).sounds() == old(self).sounds(),
            final(self).issued() == old(self).issued(),
    {
        match self.stop_senders.remove(playback_id) {
            Some(sender) => {
                sender.signal();
                true
            },
            None => false,
        }
    }

    /// The state that stands for `sound_id`, if the sound is active.
    pub fn get_sound_state(&self, sound_id: &str) -> (state: Option<SoundState>)
        requires
            self.wf(),
        ensures
            match state {
                Some(s) => self.sounds().contains_key(sound_id@) && s@ == self.sounds()[sound_id@],
                None => !self.sounds().contains_key(sound_id@),
            },
    {
        match self.active_sounds.get(sound_id) {
            Some(state) => Some(state.duplicate()),
            None => None,
        }
    }

    /// Puts `state` under `sound_id`.
    fn set_sound(&mut self, sound_id: &str, state: SoundState)
        requires
            old(self).wf(),
        ensures
            final(self).wf(),
            final(self).sounds() == old(self).sounds().insert(sound_id@, state@),
            final(self).registry() == old(self).registry(),
            final(self).issued() == old(self).issued(),
    {
        let ghost before = self.active_sounds@;
        self.active_sounds.insert(String::from_str(sound_id), state);
        proof {
            assert(before.insert(sound_id@, state).map_values(|s: SoundState| s@) =~= before.map_values(
                |s: SoundState| s@,
            ).insert(sound_id@, state@));
        }
    }

    /// Records that `playback_id` now stands for `sound_id` and is decoding.
    pub fn register_sound_decoding(&mut self, sound_id: String, playback_id: String)
        requires
            old(self).wf(),
        ensures
            final(self).wf(),
            final(self).sounds() == old(self).sounds().insert(
                sound_id@,
                SoundModel::Decoding { playback_id: playback_id@ },
            ),
            final(self).registry() == old(self).registry(),
            final(self).issued() == old(self).issued(),
    {
        self.set_sound(sound_id.as_str(), SoundState::Decoding { playback_id });
    }

    /// Applies the retrigger policy to a trigger of `sound_id` at `now`, a
    /// reading of the caller's monotonic clock in milliseconds.
    ///
    /// An idle sound starts. A decoding sound is restarted at once. A playing
    /// sound is restarted unless it became audible less than
    /// [`MIN_PLAY_TIME_MS`] ago, in which case the trigger is ignored and
    /// nothing changes. On start and restart `new_playback_id` stands for the
    /// sound from now on, as decoding.
    pub fn trigger(&mut self, sound_id: &str, new_playback_id: &str, now: u64) -> (decision: TriggerDecision)
        requires
            old(self).wf(),
        ensures
            final(self).wf(),
            final(self).registry() == old(self).registry(),
            final(self).issued() == old(self).issued(),
            final(self).sounds() == sounds_after_trigger(
                old(self).sounds(),
                sound_id@,
                new_playback_id@,
                now,
            ),
            decision@ == trigger_decision(old(self).sounds(), sound_id@, now),
    {
        let decision = match self.active_sounds.get(sound_id) {
            None => TriggerDecision::Start,
            Some(state) => {
                let cooling = match state {
                    SoundState::Decoding { .. } => false,
                    SoundState::Playing { started_at, .. } => {
                        let elapsed: u64 = if now >= *started_at {
                            now - *started_at
                        } else {
                            0
                        };
                        elapsed < MIN_PLAY_TIME_MS
                    },
                };
                if cooling {
                    TriggerDecision::Ignore
                } else {
                    TriggerDecision::Restart {
                        old_playback_id: String::from_str(state.playback_id()),
                    }
                }
            },
        };
        match decision {
            TriggerDecision::Ignore => {},
            _ => {
                self.set_sound(
                    sound_id,
                    SoundState::Decoding { playback_id: String::from_str(new_playback_id) },
                );
            },
        }
        decision
    }

    /// Whether `playback_id` is the playback that stands for `sound_id`.
    fn stands_for(&self, sound_id: &str, playback_id: &str) -> (owns: bool)
        requires
            self.wf(),
        ensures
            owns == owns_sound(self.sounds(), sound_id@, playback_id@),
    {
        match self.active_sounds.get(sound_id) {
            Some(state) => text_eq(state.playback_id(), playback_id),
            None => false,
        }
    }

    /// Turns the state of `sound_id` into playing since `now`, provided that
    /// `playback_id` still stands for the sound; otherwise changes nothing.
    /// Returns whether the state was changed.
    pub fn mark_playing(&mut self, sound_id: &str, playback_id: &str, now: u64) -> (changed: bool)
        requires
            old(self).wf(),
        ensures
            final(self).wf(),
            final(self).registry() == old(self).registry(),
            final(self).issued() == old(self).issued(),
            changed == owns_sound(old(self).sounds(), sound_id@, playback_id@),
            final(self).sounds() == sounds_after_ready(
                old(self).sounds(),
                sound_id@,
                playback_id@,
                now,
            ),
    {
        let owns = self.stands_for(sound_id, playback_id);
        if owns {
            self.set_sound(
                sound_id,
                SoundState::Playing { playback_id: String::from_str(playback_id), started_at: now },
            );
        }
        owns
    }

    /// Removes the state of `sound_id`, provided that `playback_id` still
    /// stands for the sound; a sound that a newer playback has taken over is
    /// left alone. Returns whether the state was removed.
    pub fn release_sound(&mut self, sound_id: &str, playback_id: &str) -> (removed: bool)
        requires
            old(self).wf(),
        ensures
            final(self).wf(),
            final(self).registry() == old(self).registry(),
            final(self).issued() == old(self).issued(),
            removed == owns_sound(old(self).sounds(), sound_id@, playback_id@),
            final(self).sounds() == sounds_after_release(
                old(self).sounds(),
                sound_id@,
                playback_id@,
            ),
    {
        let owns = self.stands_for(sound_id, playback_id);
        if owns {
            let ghost before = self.active_sounds@;
            self.active_sounds.remove(sound_id);
            proof {
                assert(before.remove(sound_id@).map_values(|s: SoundState| s@) =~= before.map_values(
                    |s: SoundState| s@,
                ).remove(sound_id@));
            }
        }
        owns
    }

    /// Ends the bookkeeping of a playback: takes `playback_id` out of the
    /// registry and, where a sound was named, releases the sound if the
    /// playback still stands for it. An empty `sound_id` names no sound.
    pub fn finish_playback(&mut self, sound_id: &str, playback_id: &str)
        requires
            old(self).wf(),
        ensures
            final(self).wf(),
            final(self).issued() == old(self).issued(),
            final(self).registry() == old(self).registry().remove(playback_id@),
            final(self).sounds() == if sound_id@.len() > 0 {
                sounds_after_release(old(self).sounds(), sound_id@, playback_id@)
            } else {
                old(self).sounds()
            },
    {
        self.stop_senders.remove(playback_id);
        if sound_id.unicode_len() > 0 {
            self.release_sound(sound_id, playback_id);
        }
    }

    /// Takes in a play request at `now`: hands out a playback identifier and,
    /// where a sound is named, applies the retrigger policy to it.
    ///
    /// An empty `sound_id` names no sound; such a request always starts. An
    /// ignored request still uses up an identifier, but reports none.
    pub fn request_playback(&mut self, sound_id: &str, now: u64) -> (result: PlaybackResult)
        requires
            old(self).wf(),
            old(self).issued() < u64::MAX,
        ensures
            final(self).wf(),
            final(self).issued() == old(self).issued() + 1,
            final(self).registry() == old(self).registry(),
            final(self).sounds() == if sound_id@.len() > 0 {
                sounds_after_trigger(
                    old(self).sounds(),
                    sound_id@,
                    playback_text(final(self).issued()),
                    now,
                )
            } else {
                old(self).sounds()
            },
            result@ == request_result(
                old(self).sounds(),
                sound_id@,
                playback_text(final(self).issued()),
                now,
            ),
    {
        let playback_id = self.next_playback_id();
        if sound_id.unicode_len() == 0 {
            return PlaybackResult {
                playback_id: Some(playback_id),
                action: String::from_str("started"),
                stopped_playback_id: None,
            };
        }
        match self.trigger(sound_id, playback_id.as_str(), now) {
            TriggerDecision::Start => PlaybackResult {
                playback_id: Some(playback_id),
                action: String::from_str("started"),
                stopped_playback_id: None,
            },
            TriggerDecision::Restart { old_playback_id } => PlaybackResult {
                playback_id: Some(playback_id),
                action: String::from_str("restarted"),
                stopped_playback_id: Some(old_playback_id),
            },
            TriggerDecision::Ignore => PlaybackResult {
                playback_id: None,
                action: String::from_str("ignored"),
                stopped_playback_id: None,
            },
        }
    }
}

/// Whether `playback_id` is the playback that stands for `sound_id`.
pub open spec fn owns_sound(
    sounds: Map<Seq<char>, SoundModel>,
    sound_id: Seq<char>,
    playback_id: Seq<char>,
) -> bool {
    sounds.contains_key(sound_id) && state_playback(sounds[sound_id]) == playback_id
}

/// What the policy decides for a trigger of `sound_id` at `now`.
pub open spec fn trigger_decision(
    sounds: Map<Seq<char>, SoundModel>,
    sound_id: Seq<char>,
    now: u64,
) -> DecisionModel {
    if !sounds.contains_key(sound_id) {
        DecisionModel::Start
    } else if in_cooldown(sounds[sound_id], now) {
        DecisionModel::Ignore
    } else {
        DecisionModel::Restart { old_playback_id: state_playback(sounds[sound_id]) }
    }
}

/// The sound table after a trigger. A trigger in the cooldown changes
/// nothing; any other leaves `new_playback_id` decoding under `sound_id`.
pub open spec fn sounds_after_trigger(
    sounds: Map<Seq<char>, SoundModel>,
    sound_id: Seq<char>,
    new_playback_id: Seq<char>,
    now: u64,
) -> Map<Seq<char>, SoundModel> {
    if trigger_decision(sounds, sound_id, now) is Ignore {
        sounds
    } else {
        sounds.insert(sound_id, SoundModel::Decoding { playback_id: new_playback_id })
    }
}

/// The sound table after the streams of `playback_id` have come up at `now`:
/// the sound is playing if the playback still stands for it.
pub open spec fn sounds_after_ready(
    sounds: Map<Seq<char>, SoundModel>,
    sound_id: Seq<char>,
    playback_id: Seq<char>,
    now: u64,
) -> Map<Seq<char>, SoundModel> {
    if owns_sound(sounds, sound_id, playback_id) {
        sounds.insert(sound_id, SoundModel::Playing { playback_id, started_at: now })
    } else {
        sounds
    }
}

/// The sound table after `playback_id` has ended: the sound is idle if the
/// playback still stood for it.
pub open spec fn sounds_after_release(
    sounds: Map<Seq<char>, SoundModel>,
    sound_id: Seq<char>,
    playback_id: Seq<char>,
) -> Map<Seq<char>, SoundModel> {
    if owns_sound(sounds, sound_id, playback_id) {
        sounds.remove(sound_id)
    } else {
        sounds
    }
}

/// What a play request reports, given the identifier `new_id` handed out for
/// it. A request that names no sound always starts.
pub open spec fn request_result(
    sounds: Map<Seq<char>, SoundModel>,
    sound_id: Seq<char>,
    new_id: Seq<char>,
    now: u64,
) -> ResultModel {
    if sound_id.len() == 0 {
        ResultModel { playback_id: Some(new_id), action: "started"@, stopped_playback_id: None }
    } else {
        match trigger_decision(sounds, sound_id, now) {
            DecisionModel::Start => ResultModel {
                playback_id: Some(new_id),
                action: "started"@,
                stopped_playback_id: None,
            },
            DecisionModel::Restart { old_playback_id } => ResultModel {
                playback_id: Some(new_id),
                action: "restarted"@,
                stopped_playback_id: Some(old_playback_id),
            },
            DecisionModel::Ignore => ResultModel {
                playback_id: None,
                action: "ignored"@,
                stopped_playback_id: None,
            },
        }
    }
}

/// A first trigger of an idle sound starts it, and an immediate second
/// trigger, while the first is still decoding, restarts it and names the
/// first playback as the one to stop.
pub proof fn law_retrigger_while_decoding(
    sounds: Map<Seq<char>, SoundModel>,
    sound_id: Seq<char>,
    first: Seq<char>,
    now: u64,
    later: u64,
)
    requires
        !sounds.contains_key(sound_id),
    ensures
        trigger_decision(sounds, sound_id, now) == DecisionModel::Start,
        trigger_decision(sounds_after_trigger(sounds, sound_id, first, now), sound_id, later)
            == (DecisionModel::Restart { old_playback_id: first }),
{
}

/// Once a playback is audible, a trigger of its sound less than
/// [`MIN_PLAY_TIME_MS`] later is ignored and leaves the table alone; a trigger
/// at or after that time restarts the sound and names the audible playback as
/// the one to stop.
pub proof fn law_cooldown(
    sounds: Map<Seq<char>, SoundModel>,
    sound_id: Seq<char>,
    playback_id: Seq<char>,
    next_id: Seq<char>,
    started: u64,
    now: u64,
)
    requires
        owns_sound(sounds, sound_id, playback_id),
        started <= now,
    ensures
        ({
            let playing = sounds_after_ready(sounds, sound_id, playback_id, started);
            if now - started < MIN_PLAY_TIME_MS {
                &&& trigger_decision(playing, sound_id, now) == DecisionModel::Ignore
                &&& sounds_after_trigger(playing, sound_id, next_id, now) == playing
            } else {
                &&& trigger_decision(playing, sound_id, now) == (DecisionModel::Restart {
                    old_playback_id: playback_id,
                })
                &&& owns_sound(
                    sounds_after_trigger(playing, sound_id, next_id, now),
                    sound_id,
                    next_id,
                )
            }
        }),
{
}

/// A playback that has been superseded neither turns the sound to playing
/// nor clears it when it ends: the newer playback keeps standing for the
/// sound.
pub proof fn law_superseded_is_inert(
    sounds: Map<Seq<char>, SoundModel>,
    sound_id: Seq<char>,
    old_id: Seq<char>,
    now: u64,
)
    requires
        sounds.contains_key(sound_id),
        state_playback(sounds[sound_id]) != old_id,
    ensures
        sounds_after_ready(sounds, sound_id, old_id, now) == sounds,
        sounds_after_release(sounds, sound_id, old_id) == sounds,
{
}

} // verus!
