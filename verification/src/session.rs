//! One playback from request to cleanup.
//!
//! A session decides; its caller acts. The caller decodes, builds streams,
//! sleeps and sends notifications, and tells the session what happened. The
//! session keeps the phase, the clock of the wait loop and the bookkeeping in
//! the manager.

use vstd::prelude::*;

use crate::manager::{
    request_result, sounds_after_ready, sounds_after_release, sounds_after_trigger, playback_text,
    AudioManager, PlaybackResult, SoundModel, StopSignal,
};

verus! {

/// Milliseconds between two looks at the cancellation signal.
pub const CHECK_INTERVAL_MS: u64 = 10;

/// Milliseconds between two progress notifications.
pub const PROGRESS_INTERVAL_MS: u64 = 50;

/// Where a session stands.
#[derive(Clone, Copy, Debug, PartialEq, Eq, Structural)]
pub enum SessionPhase {
    /// The play request has come in.
    Requested,
    /// The playback is registered and its audio is being fetched.
    Decoding,
    /// The audio is there and the two streams are being built.
    StreamsBuilding,
    /// Both streams are live.
    Playing,
    /// The sound played to its end.
    Completed,
    /// The playback was stopped.
    Cancelled,
    /// Decoding or stream building failed.
    Failed,
}

/// A progress notification.
#[derive(Debug, Clone)]
pub struct PlaybackProgress {
    pub playback_id: String,
    pub elapsed_ms: u64,
    pub total_ms: u64,
    pub progress_pct: u8,
}

/// What the wait loop does next.
#[derive(Clone, Copy, Debug, PartialEq, Eq, Structural)]
pub enum WaitStep {
    /// Sleep for this many milliseconds, then report back with
    /// [`PlaybackSession::slept`].
    Sleep(u64),
    /// The loop is over; the phase says how it ended.
    Finished,
}

/// The frame that lies `ms` milliseconds into a buffer of `sample_rate`
/// frames per second, held at the machine limit.
pub open spec fn frame_at(ms: nat, sample_rate: nat) -> nat {
    let exact = ms * sample_rate / 1000;
    if exact <= usize::MAX {
        exact
    } else {
        usize::MAX as nat
    }
}

/// Milliseconds that `frames` frames last at `sample_rate` frames per second,
/// held at the limit of the millisecond counter. At a rate of zero nothing
/// lasts no time and anything lasts forever.
pub open spec fn frames_ms(frames: nat, sample_rate: nat) -> nat {
    if sample_rate == 0 {
        if frames == 0 {
            0
        } else {
            u64::MAX as nat
        }
    } else {
        let exact = frames * 1000 / sample_rate;
        if exact <= u64::MAX {
            exact
        } else {
            u64::MAX as nat
        }
    }
}

/// Milliseconds that a playback of the trim window lasts: the frames from the
/// start of the window, or of the buffer, to the end of the window, or of the
/// buffer; none if the end lies before the start.
pub open spec fn window_ms(
    total_frames: nat,
    sample_rate: nat,
    start_frame: Option<usize>,
    end_frame: Option<usize>,
) -> nat {
    let start = match start_frame {
        Some(f) => f as nat,
        None => 0,
    };
    let end = match end_frame {
        Some(f) => f as nat,
        None => total_frames,
    };
    let frames = if end >= start {
        (end - start) as nat
    } else {
        0
    };
    frames_ms(frames, sample_rate)
}

/// Percentage of `total` that `elapsed` is, rounded down and at most 100. A
/// playback without duration is at 100.
pub open spec fn percent_of(elapsed: nat, total: nat) -> nat {
    if total == 0 || elapsed >= total {
        100
    } else {
        elapsed * 100 / total
    }
}

/// Converts a trim boundary in milliseconds to a frame index, see
/// [`frame_at`].
pub fn trim_frame(ms: u64, sample_rate: u32) -> (frame: usize)
    ensures
        frame == frame_at(ms as nat, sample_rate as nat),
{
    proof {
        assert((ms as int) * (sample_rate as int) <= 0xFFFF_FFFF_FFFF_FFFF * 0xFFFF_FFFF)
            by (nonlinear_arith)
            requires
                0 <= ms <= 0xFFFF_FFFF_FFFF_FFFF,
                0 <= sample_rate <= 0xFFFF_FFFF,
        ;
    }
    let product: u128 = (ms as u128) * (sample_rate as u128);
    let exact: u128 = product / 1000;
    if exact <= usize::MAX as u128 {
        exact as usize
    } else {
        usize::MAX
    }
}

/// Converts both trim boundaries, each where it is given.
pub fn trim_frames(
    sample_rate: u32,
    trim_start_ms: Option<u64>,
    trim_end_ms: Option<u64>,
) -> (frames: (Option<usize>, Option<usize>))
    ensures
        frames.0 == match trim_start_ms {
            Some(ms) => Some(frame_at(ms as nat, sample_rate as nat) as usize),
            None => None,
        },
        frames.1 == match trim_end_ms {
            Some(ms) => Some(frame_at(ms as nat, sample_rate as nat) as usize),
            None => None,
        },
{
    let start = match trim_start_ms {
        Some(ms) => Some(trim_frame(ms, sample_rate)),
        None => None,
    };
    let end = match trim_end_ms {
        Some(ms) => Some(trim_frame(ms, sample_rate)),
        None => None,
    };
    (start, end)
}

/// Computes how long a playback of the trim window lasts, see [`window_ms`].
pub fn playback_duration_ms(
    total_frames: usize,
    sample_rate: u32,
    start_frame: Option<usize>,
    end_frame: Option<usize>,
) -> (ms: u64)
    ensures
        ms == window_ms(total_frames as nat, sample_rate as nat, start_frame, end_frame),
{
    let start: usize = match start_frame {
        Some(f) => f,
        None => 0,
    };
    let end: usize = match end_frame {
        Some(f) => f,
        None => total_frames,
    };
    let frames: usize = if end >= start {
        end - start
    } else {
        0
    };
    if sample_rate == 0 {
        return if frames == 0 {
            0
        } else {
            u64::MAX
        };
    }
    let exact: u128 = (frames as u128) * 1000 / (sample_rate as u128);
    if exact <= u64::MAX as u128 {
        exact as u64
    } else {
        u64::MAX
    }
}

/// Computes the percentage for a progress notification, see [`percent_of`].
pub fn progress_percent(elapsed_ms: u64, total_ms: u64) -> (pct: u8)
    ensures
        pct == percent_of(elapsed_ms as nat, total_ms as nat),
        pct <= 100,
{
    if total_ms == 0 || elapsed_ms >= total_ms {
        100
    } else {
        let scaled: u128 = (elapsed_ms as u128) * 100 / (total_ms as u128);
        proof {
            assert((elapsed_ms as int) * 100 / (total_ms as int) < 100) by (nonlinear_arith)
                requires
                    0 <= elapsed_ms < total_ms,
            ;
        }
        scaled as u8
    }
}

/// The bookkeeping of one playback.
pub struct PlaybackSession {
    playback_id: String,
    sound_id: String,
    replaces: Option<String>,
    phase: SessionPhase,
    elapsed_ms: u64,
    last_progress_ms: u64,
    total_ms: u64,
}

impl PlaybackSession {
    /// The playback's identifier.
    pub closed spec fn id(&self) -> Seq<char> {
        self.playback_id@
    }

    /// The sound that the playback belongs to; empty if it belongs to none.
    pub closed spec fn sound(&self) -> Seq<char> {
        self.sound_id@
    }

    /// The playback that this one replaces and has to stop once it is
    /// audible.
    pub closed spec fn replaced(&self) -> Option<Seq<char>> {
        match self.replaces {
            Some(id) => Some(id@),
            None => None,
        }
    }

    /// The session's invariant: the last progress notification does not lie
    /// ahead of the clock.
    pub closed spec fn wf(&self) -> bool {
        self.last_progress_ms <= self.elapsed_ms
    }

    /// Where the session stands.
    pub closed spec fn phase_of(&self) -> SessionPhase {
        self.phase
    }

    /// Milliseconds that the wait loop has slept.
    pub closed spec fn elapsed(&self) -> nat {
        self.elapsed_ms as nat
    }

    /// The value of [`PlaybackSession::elapsed`] at the last progress
    /// notification.
    pub closed spec fn last_progress(&self) -> nat {
        self.last_progress_ms as nat
    }

    /// Milliseconds that the playback lasts.
    pub closed spec fn total(&self) -> nat {
        self.total_ms as nat
    }

    /// The sound table after this session's playback has ended.
    pub open spec fn sounds_after_end(&self, sounds: Map<Seq<char>, SoundModel>) -> Map<
        Seq<char>,
        SoundModel,
    > {
        if self.sound().len() > 0 {
            sounds_after_release(sounds, self.sound(), self.id())
        } else {
            sounds
        }
    }

    /// Takes in a play request at `now`.
    ///
    /// The manager hands out an identifier and applies the retrigger policy.
    /// Unless the request is ignored, `sender` is registered as the
    /// playback's cancellation handle and a session in the decoding phase is
    /// returned. An ignored request leaves no trace but the used identifier.
    pub fn request<C: StopSignal>(
        manager: &mut AudioManager<C>,
        sound_id: &str,
        sender: C,
        now: u64,
    ) -> (outcome: (PlaybackResult, Option<PlaybackSession>))
        requires
            old(manager).wf(),
            old(manager).issued() < u64::MAX,
        ensures
            final(manager).wf(),
            final(manager).issued() == old(manager).issued() + 1,
            outcome.0@ == request_result(
                old(manager).sounds(),
                sound_id@,
                playback_text(final(manager).issued()),
                now,
            ),
            final(manager).sounds() == if sound_id@.len() > 0 {
                sounds_after_trigger(
                    old(manager).sounds(),
                    sound_id@,
                    playback_text(final(manager).issued()),
                    now,
                )
            } else {
                old(manager).sounds()
            },
            match outcome.1 {
                Some(session) => {
                    &&& session.wf()
                    &&& outcome.0@.playback_id == Some(session.id())
                    &&& session.id() == playback_text(final(manager).issued())
                    &&& session.sound() == sound_id@
                    &&& session.replaced() == outcome.0@.stopped_playback_id
                    &&& session.phase_of() == SessionPhase::Decoding
                    &&& session.elapsed() == 0
                    &&& session.last_progress() == 0
                    &&& final(manager).registry() == old(manager).registry().insert(
                        session.id(),
                        sender,
                    )
                },
                None => {
                    &&& outcome.0@.playback_id is None
                    &&& final(manager).registry() == old(manager).registry()
                },
            },
    {
        let result = manager.request_playback(sound_id, now);
        let session = match &result.playback_id {
            Some(id) => {
                manager.register_playback(id.clone(), sender);
                let replaces = match &result.stopped_playback_id {
                    Some(old_id) => Some(old_id.clone()),
                    None => None,
                };
                Some(
                    PlaybackSession {
                        playback_id: id.clone(),
                        sound_id: String::from_str(sound_id),
                        replaces,
                        phase: SessionPhase::Decoding,
                        elapsed_ms: 0,
                        last_progress_ms: 0,
                        total_ms: 0,
                    },
                )
            },
            None => None,
        };
        (result, session)
    }

    /// The playback's identifier.
    pub fn playback_id(&self) -> (id: &str)
        ensures
            id@ == self.id(),
    {
        self.playback_id.as_str()
    }

    /// The sound that the playback belongs to; empty if it belongs to none.
    pub fn sound_id(&self) -> (id: &str)
        ensures
            id@ == self.sound(),
    {
        self.sound_id.as_str()
    }

    /// Where the session stands.
    pub fn phase(&self) -> (phase: SessionPhase)
        ensures
            phase == self.phase_of(),
    {
        self.phase
    }

    /// Milliseconds that the playback lasts; zero before the streams are up.
    pub fn total_ms(&self) -> (ms: u64)
        ensures
            ms == self.total(),
    {
        self.total_ms
    }

    /// Milliseconds that the wait loop has slept.
    pub fn elapsed_ms(&self) -> (ms: u64)
        ensures
            ms == self.elapsed(),
    {
        self.elapsed_ms
    }

    /// The audio has been fetched: the streams are built next.
    pub fn decoded(&mut self)
        requires
            old(self).phase_of() == SessionPhase::Decoding,
        ensures
            final(self).wf() == old(self).wf(),
            final(self).phase_of() == SessionPhase::StreamsBuilding,
            final(self).id() == old(self).id(),
            final(self).sound() == old(self).sound(),
            final(self).replaced() == old(self).replaced(),
            final(self).elapsed() == old(self).elapsed(),
            final(self).last_progress() == old(self).last_progress(),
            final(self).total() == old(self).total(),
    {
        self.phase = SessionPhase::StreamsBuilding;
    }

    /// Decoding or stream building has failed: the session ends as failed,
    /// its playback leaves the registry, and its sound is released if the
    /// playback still stands for it. The playback that it was to replace is
    /// not stopped.
    pub fn failed<C: StopSignal>(&mut self, manager: &mut AudioManager<C>)
        requires
            old(self).phase_of() == SessionPhase::Decoding || old(self).phase_of()
                == SessionPhase::StreamsBuilding,
            old(manager).wf(),
        ensures
            final(self).phase_of() == SessionPhase::Failed,
            final(self).id() == old(self).id(),
            final(self).sound() == old(self).sound(),
            final(manager).wf(),
            final(manager).issued() == old(manager).issued(),
            final(manager).registry() == old(manager).registry().remove(old(self).id()),
            final(manager).sounds() == old(self).sounds_after_end(old(manager).sounds()),
    {
        manager.finish_playback(self.sound_id.as_str(), self.playback_id.as_str());
        self.phase = SessionPhase::Failed;
    }

    /// Both streams are live at `now`, and the playback lasts `total_ms`.
    ///
    /// Only now the playback that this one replaces is signalled to stop, so
    /// that the old sound is not silenced before the new one is audible.
    /// Then the sound turns to playing, if this playback still stands for
    /// it. Returns whether a replaced playback was found and signalled.
    pub fn streams_ready<C: StopSignal>(
        &mut self,
        manager: &mut AudioManager<C>,
        now: u64,
        total_ms: u64,
    ) -> (stopped_old: bool)
        requires
            old(self).phase_of() == SessionPhase::StreamsBuilding,
            old(manager).wf(),
        ensures
            final(self).wf(),
            final(self).phase_of() == SessionPhase::Playing,
            final(self).id() == old(self).id(),
            final(self).sound() == old(self).sound(),
            final(self).replaced() == old(self).replaced(),
            final(self).total() == total_ms,
            final(self).elapsed() == 0,
            final(self).last_progress() == 0,
            final(manager).wf(),
            final(manager).issued() == old(manager).issued(),
            final(manager).registry() == match old(self).replaced() {
                Some(old_id) => old(manager).registry().remove(old_id),
                None => old(manager).registry(),
            },
            stopped_old == match old(self).replaced() {
                Some(old_id) => old(manager).registry().contains_key(old_id),
                None => false,
            },
            final(manager).sounds() == if old(self).sound().len() > 0 {
                sounds_after_ready(old(manager).sounds(), old(self).sound(), old(self).id(), now)
            } else {
                old(manager).sounds()
            },
    {
        let stopped_old = match &self.replaces {
            Some(old_id) => manager.signal_stop(old_id.as_str()),
            None => false,
        };
        if self.sound_id.as_str().unicode_len() > 0 {
            manager.mark_playing(self.sound_id.as_str(), self.playback_id.as_str(), now);
        }
        self.total_ms = total_ms;
        self.elapsed_ms = 0;
        self.last_progress_ms = 0;
        self.phase = SessionPhase::Playing;
        stopped_old
    }

    /// One turn of the wait loop, with whether a stop signal has arrived.
    ///
    /// A playback that has slept through its duration is complete, whether
    /// or not a stop signal has arrived as well. Otherwise a stop signal
    /// cancels it. Otherwise the loop sleeps for one check interval.
    pub fn poll(&mut self, stop_requested: bool) -> (step: WaitStep)
        requires
            old(self).phase_of() == SessionPhase::Playing,
        ensures
            final(self).wf() == old(self).wf(),
            final(self).id() == old(self).id(),
            final(self).sound() == old(self).sound(),
            final(self).replaced() == old(self).replaced(),
            final(self).elapsed() == old(self).elapsed(),
            final(self).last_progress() == old(self).last_progress(),
            final(self).total() == old(self).total(),
            final(self).phase_of() == if old(self).elapsed() >= old(self).total() {
                SessionPhase::Completed
            } else if stop_requested {
                SessionPhase::Cancelled
            } else {
                SessionPhase::Playing
            },
            step == if final(self).phase_of() == SessionPhase::Playing {
                WaitStep::Sleep(CHECK_INTERVAL_MS)
            } else {
                WaitStep::Finished
            },
    {
        if self.elapsed_ms >= self.total_ms {
            self.phase = SessionPhase::Completed;
            WaitStep::Finished
        } else if stop_requested {
            self.phase = SessionPhase::Cancelled;
            WaitStep::Finished
        } else {
            WaitStep::Sleep(CHECK_INTERVAL_MS)
        }
    }

    /// The loop has slept for one check interval.
    ///
    /// The elapsed time grows by the interval. Where at least a progress
    /// interval has gone by since the last progress notification, the next
    /// one is returned.
    pub fn slept(&mut self) -> (progress: Option<PlaybackProgress>)
        requires
            old(self).wf(),
            old(self).phase_of() == SessionPhase::Playing,
        ensures
            final(self).wf(),
            final(self).phase_of() == SessionPhase::Playing,
            final(self).id() == old(self).id(),
            final(self).sound() == old(self).sound(),
            final(self).replaced() == old(self).replaced(),
            final(self).total() == old(self).total(),
            final(self).elapsed() == after_sleep(old(self).elapsed()),
            progress_due(old(self).last_progress(), final(self).elapsed()) ==> {
                &&& final(self).last_progress() == final(self).elapsed()
                &&& progress matches Some(p) && p.playback_id@ == old(self).id() && p.elapsed_ms
                    == final(self).elapsed() && p.total_ms == old(self).total() && p.progress_pct
                    == percent_of(final(self).elapsed(), old(self).total())
            },
            !progress_due(old(self).last_progress(), final(self).elapsed()) ==> {
                &&& final(self).last_progress() == old(self).last_progress()
                &&& progress is None
            },
    {
        self.elapsed_ms = if self.elapsed_ms <= u64::MAX - CHECK_INTERVAL_MS {
            self.elapsed_ms + CHECK_INTERVAL_MS
        } else {
            u64::MAX
        };
        if self.elapsed_ms - self.last_progress_ms >= PROGRESS_INTERVAL_MS {
            self.last_progress_ms = self.elapsed_ms;
            Some(
                PlaybackProgress {
                    playback_id: self.playback_id.clone(),
                    elapsed_ms: self.elapsed_ms,
                    total_ms: self.total_ms,
                    progress_pct: progress_percent(self.elapsed_ms, self.total_ms),
                },
            )
        } else {
            None
        }
    }

    /// Closes a session that has completed or was cancelled: its playback
    /// leaves the registry, and its sound is released if and only if the
    /// playback still stands for it.
    pub fn finish<C: StopSignal>(&self, manager: &mut AudioManager<C>)
        requires
            self.phase_of() == SessionPhase::Completed || self.phase_of()
                == SessionPhase::Cancelled,
            old(manager).wf(),
        ensures
            final(manager).wf(),
            final(manager).issued() == old(manager).issued(),
            final(manager).registry() == old(manager).registry().remove(self.id()),
            final(manager).sounds() == self.sounds_after_end(old(manager).sounds()),
    {
        manager.finish_playback(self.sound_id.as_str(), self.playback_id.as_str());
    }
}

/// The elapsed time after one more check interval, held at the counter's
/// limit.
pub open spec fn after_sleep(elapsed: nat) -> nat {
    if elapsed + CHECK_INTERVAL_MS <= u64::MAX {
        elapsed + CHECK_INTERVAL_MS as nat
    } else {
        u64::MAX as nat
    }
}

/// Whether a progress notification is due at `elapsed`, the last one having
/// gone out at `last_progress`.
pub open spec fn progress_due(last_progress: nat, elapsed: nat) -> bool {
    elapsed - last_progress >= PROGRESS_INTERVAL_MS
}

/// The number of check intervals that a playback of `total` milliseconds
/// sleeps before it is complete.
pub open spec fn sleeps_needed(total: nat) -> nat {
    (total + CHECK_INTERVAL_MS - 1) as nat / (CHECK_INTERVAL_MS as nat)
}

/// A playback that is not stopped completes after the fewest check intervals
/// that cover its duration: it never ends early, and it ends less than one
/// check interval late.
pub proof fn law_completes_within_one_interval(total: nat)
    ensures
        sleeps_needed(total) * CHECK_INTERVAL_MS >= total,
        sleeps_needed(total) * CHECK_INTERVAL_MS < total + CHECK_INTERVAL_MS,
        forall|fewer: nat|
            fewer < sleeps_needed(total) ==> #[trigger] (fewer * CHECK_INTERVAL_MS) < total,
{
    let n = sleeps_needed(total);
    assert(n * 10 >= total && n * 10 < total + 10) by (nonlinear_arith)
        requires
            n == (total + 9) / 10,
    ;
    assert forall|fewer: nat| fewer < n implies #[trigger] (fewer * CHECK_INTERVAL_MS) < total by {
        assert(fewer * 10 < total) by (nonlinear_arith)
            requires
                fewer < n,
                n == (total + 9) / 10,
        ;
    }
}

/// A trim boundary at a whole number of seconds lies at that many times the
/// sample rate, and half a second into a buffer lies at half the rate where
/// the rate is even.
pub proof fn law_trim_frame_exact(seconds: nat, sample_rate: nat)
    requires
        seconds * sample_rate <= usize::MAX,
    ensures
        frame_at(seconds * 1000, sample_rate) == seconds * sample_rate,
        sample_rate % 2 == 0 && sample_rate <= usize::MAX ==> frame_at(500, sample_rate)
            == sample_rate / 2,
{
    assert(seconds * 1000 * sample_rate / 1000 == seconds * sample_rate) by (nonlinear_arith);
    if sample_rate % 2 == 0 {
        assert(500 * sample_rate / 1000 == sample_rate / 2) by (nonlinear_arith)
            requires
                sample_rate % 2 == 0,
        ;
    }
}

} // verus!
