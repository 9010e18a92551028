use sonic_deck::session::{
    playback_duration_ms, progress_percent, trim_frame, trim_frames, CHECK_INTERVAL_MS,
    PROGRESS_INTERVAL_MS,
};
use sonic_deck::{AudioManager, PlaybackSession, SessionPhase, SoundState, StopSignal, WaitStep};
use std::sync::mpsc;

struct ChannelStop(mpsc::Sender<()>);

impl StopSignal for ChannelStop {
    fn signal(&self) {
        let _ = self.0.send(());
    }
}

fn channel() -> (ChannelStop, mpsc::Receiver<()>) {
    let (tx, rx) = mpsc::channel();
    (ChannelStop(tx), rx)
}

#[test]
fn test_trim_frame_values() {
    assert_eq!(trim_frame(0, 48000), 0);
    assert_eq!(trim_frame(500, 48000), 24000);
    assert_eq!(trim_frame(1000, 44100), 44100);
    assert_eq!(trim_frame(1, 44100), 44);
    assert_eq!(trim_frame(1, 999), 0);
    assert_eq!(trim_frame(250, 0), 0);
    assert_eq!(trim_frame(u64::MAX, u32::MAX), usize::MAX);
}

#[test]
fn test_trim_frames_converts_what_is_given() {
    assert_eq!(trim_frames(48000, None, None), (None, None));
    assert_eq!(trim_frames(48000, Some(100), None), (Some(4800), None));
    assert_eq!(trim_frames(48000, None, Some(500)), (None, Some(24000)));
    assert_eq!(trim_frames(22050, Some(0), Some(2000)), (Some(0), Some(44100)));
}

#[test]
fn test_playback_duration() {
    assert_eq!(playback_duration_ms(48000, 48000, None, None), 1000);
    assert_eq!(playback_duration_ms(48000, 48000, Some(0), Some(24000)), 500);
    assert_eq!(playback_duration_ms(48000, 48000, Some(12000), None), 750);
    assert_eq!(playback_duration_ms(44100, 44100, None, None), 1000);
    assert_eq!(playback_duration_ms(1, 48000, None, None), 0);
    // An end before the start plays nothing.
    assert_eq!(playback_duration_ms(48000, 48000, Some(30000), Some(100)), 0);
    // The end of the trim window counts even beyond the buffer.
    assert_eq!(playback_duration_ms(48000, 48000, None, Some(96000)), 2000);
    assert_eq!(playback_duration_ms(0, 48000, None, None), 0);
    assert_eq!(playback_duration_ms(10, 0, None, None), u64::MAX);
    assert_eq!(playback_duration_ms(0, 0, None, None), 0);
}

#[test]
fn test_progress_percent_values() {
    assert_eq!(progress_percent(0, 1000), 0);
    assert_eq!(progress_percent(50, 1000), 5);
    assert_eq!(progress_percent(290, 1000), 29);
    assert_eq!(progress_percent(999, 1000), 99);
    assert_eq!(progress_percent(1000, 1000), 100);
    assert_eq!(progress_percent(5000, 1000), 100);
    assert_eq!(progress_percent(0, 0), 100);
    assert_eq!(progress_percent(1, 3), 33);
    assert_eq!(progress_percent(u64::MAX - 1, u64::MAX), 99);
}

#[test]
fn test_ignored_request_opens_no_session() {
    let mut manager = AudioManager::new();
    let (stop1, _rx1) = channel();
    let (result, session) = PlaybackSession::request(&mut manager, "s", stop1, 0);
    assert_eq!(result.action, "started");
    let mut session = session.expect("a session");
    session.decoded();
    session.streams_ready(&mut manager, 100, 1000);

    let (stop2, _rx2) = channel();
    let (result, second) = PlaybackSession::request(&mut manager, "s", stop2, 105);
    assert_eq!(result.action, "ignored");
    assert_eq!(result.playback_id, None);
    assert!(second.is_none());
    // Nothing was registered for the ignored request.
    assert_eq!(manager.active_playbacks(), 1);
    assert!(!manager.is_registered("playback_2"));
}

#[test]
fn test_session_runs_to_completion() {
    let mut manager = AudioManager::new();
    let (stop, rx) = channel();
    let (result, session) = PlaybackSession::request(&mut manager, "s", stop, 0);
    assert_eq!(result.playback_id.as_deref(), Some("playback_1"));
    let mut session = session.unwrap();
    assert_eq!(session.phase(), SessionPhase::Decoding);
    assert_eq!(session.playback_id(), "playback_1");
    assert_eq!(session.sound_id(), "s");
    assert!(manager.is_registered("playback_1"));

    session.decoded();
    assert_eq!(session.phase(), SessionPhase::StreamsBuilding);

    let total = playback_duration_ms(48000, 48000, Some(0), Some(24000));
    assert!(!session.streams_ready(&mut manager, 40, total));
    assert_eq!(session.phase(), SessionPhase::Playing);
    assert_eq!(session.total_ms(), 500);
    assert!(matches!(
        manager.get_sound_state("s"),
        Some(SoundState::Playing { started_at: 40, .. })
    ));

    let mut sleeps = 0u64;
    let mut reports = Vec::new();
    loop {
        match session.poll(rx.try_recv().is_ok()) {
            WaitStep::Finished => break,
            WaitStep::Sleep(ms) => {
                assert_eq!(ms, CHECK_INTERVAL_MS);
                sleeps += 1;
                if let Some(progress) = session.slept() {
                    reports.push(progress);
                }
            }
        }
    }
    assert_eq!(session.phase(), SessionPhase::Completed);
    // Complete after exactly the duration, in steps of one check interval.
    assert_eq!(sleeps, 50);
    assert_eq!(session.elapsed_ms(), 500);
    // A progress notification went out every 50 ms.
    assert_eq!(reports.len(), 10);
    for (i, report) in reports.iter().enumerate() {
        assert_eq!(report.playback_id, "playback_1");
        assert_eq!(report.elapsed_ms, (i as u64 + 1) * PROGRESS_INTERVAL_MS);
        assert_eq!(report.total_ms, 500);
        assert_eq!(report.progress_pct as u64, (i as u64 + 1) * 10);
    }

    session.finish(&mut manager);
    assert!(!manager.is_registered("playback_1"));
    assert!(manager.get_sound_state("s").is_none());
}

#[test]
fn test_duration_that_is_no_multiple_of_the_interval() {
    let mut manager: AudioManager<ChannelStop> = AudioManager::new();
    let (stop, _rx) = channel();
    let (_, session) = PlaybackSession::request(&mut manager, "", stop, 0);
    let mut session = session.unwrap();
    session.decoded();
    session.streams_ready(&mut manager, 0, 33);
    let mut sleeps = 0;
    while session.poll(false) != WaitStep::Finished {
        session.slept();
        sleeps += 1;
    }
    // Never early, and less than one interval late.
    assert_eq!(sleeps, 4);
    assert!(session.elapsed_ms() >= 33 && session.elapsed_ms() < 33 + CHECK_INTERVAL_MS);
    assert_eq!(session.phase(), SessionPhase::Completed);
}

#[test]
fn test_empty_playback_completes_at_once() {
    let mut manager: AudioManager<ChannelStop> = AudioManager::new();
    let (stop, _rx) = channel();
    let (_, session) = PlaybackSession::request(&mut manager, "s", stop, 0);
    let mut session = session.unwrap();
    session.decoded();
    session.streams_ready(&mut manager, 0, 0);
    assert_eq!(session.poll(false), WaitStep::Finished);
    assert_eq!(session.phase(), SessionPhase::Completed);
}

#[test]
fn test_stop_signal_cancels() {
    let mut manager = AudioManager::new();
    let (stop, rx) = channel();
    let (_, session) = PlaybackSession::request(&mut manager, "s", stop, 0);
    let mut session = session.unwrap();
    session.decoded();
    session.streams_ready(&mut manager, 0, 1000);
    assert_eq!(session.poll(rx.try_recv().is_ok()), WaitStep::Sleep(10));
    session.slept();

    assert!(manager.signal_stop("playback_1"));
    assert_eq!(session.poll(rx.try_recv().is_ok()), WaitStep::Finished);
    assert_eq!(session.phase(), SessionPhase::Cancelled);
    assert_eq!(session.elapsed_ms(), 10);

    session.finish(&mut manager);
    assert!(manager.get_sound_state("s").is_none());
    assert_eq!(manager.active_playbacks(), 0);
}

#[test]
fn test_old_playback_is_stopped_only_when_new_streams_are_live() {
    let mut manager = AudioManager::new();
    let (stop1, rx1) = channel();
    let (_, first) = PlaybackSession::request(&mut manager, "s", stop1, 0);
    let mut first = first.unwrap();
    first.decoded();
    first.streams_ready(&mut manager, 0, 10_000);

    let (stop2, rx2) = channel();
    let (result, second) = PlaybackSession::request(&mut manager, "s", stop2, 100);
    assert_eq!(result.action, "restarted");
    assert_eq!(result.stopped_playback_id.as_deref(), Some("playback_1"));
    let mut second = second.unwrap();

    // While the new playback decodes and builds, the old one keeps playing.
    assert!(rx1.try_recv().is_err());
    second.decoded();
    assert!(rx1.try_recv().is_err());
    assert!(manager.is_registered("playback_1"));

    // The handoff.
    assert!(second.streams_ready(&mut manager, 150, 10_000));
    assert!(rx1.try_recv().is_ok());
    assert!(rx2.try_recv().is_err());
    assert!(!manager.is_registered("playback_1"));

    // The old session ends as cancelled and must not clear the sound.
    assert_eq!(first.poll(true), WaitStep::Finished);
    assert_eq!(first.phase(), SessionPhase::Cancelled);
    first.finish(&mut manager);
    match manager.get_sound_state("s") {
        Some(SoundState::Playing { playback_id, started_at }) => {
            assert_eq!(playback_id, "playback_2");
            assert_eq!(started_at, 150);
        }
        other => panic!("unexpected state {:?}", other),
    }
    assert!(manager.is_registered("playback_2"));
}

#[test]
fn test_failed_decode_cleans_up_and_spares_the_old_playback() {
    let mut manager = AudioManager::new();
    let (stop1, rx1) = channel();
    let (_, first) = PlaybackSession::request(&mut manager, "s", stop1, 0);
    let mut first = first.unwrap();
    first.decoded();
    first.streams_ready(&mut manager, 0, 10_000);

    let (stop2, _rx2) = channel();
    let (_, second) = PlaybackSession::request(&mut manager, "s", stop2, 100);
    let mut second = second.unwrap();
    second.failed(&mut manager);
    assert_eq!(second.phase(), SessionPhase::Failed);
    assert!(!manager.is_registered("playback_2"));
    assert!(manager.get_sound_state("s").is_none());
    // The playback that was to be replaced was not signalled.
    assert!(rx1.try_recv().is_err());
    assert!(manager.is_registered("playback_1"));
}

#[test]
fn test_failed_stream_build_cleans_up() {
    let mut manager = AudioManager::new();
    let (stop, _rx) = channel();
    let (_, session) = PlaybackSession::request(&mut manager, "s", stop, 0);
    let mut session = session.unwrap();
    session.decoded();
    session.failed(&mut manager);
    assert_eq!(session.phase(), SessionPhase::Failed);
    assert_eq!(manager.active_playbacks(), 0);
    assert!(manager.get_sound_state("s").is_none());
}

#[test]
fn test_session_without_sound_leaves_sound_table_alone() {
    let mut manager = AudioManager::new();
    manager.register_sound_decoding("".to_string(), "playback_1".to_string());
    let (stop, _rx) = channel();
    let (result, session) = PlaybackSession::request(&mut manager, "", stop, 0);
    assert_eq!(result.playback_id.as_deref(), Some("playback_1"));
    let mut session = session.unwrap();
    session.decoded();
    session.streams_ready(&mut manager, 5, 10);
    assert!(matches!(manager.get_sound_state(""), Some(SoundState::Decoding { .. })));
    while session.poll(false) != WaitStep::Finished {
        session.slept();
    }
    session.finish(&mut manager);
    assert!(manager.get_sound_state("").is_some());
    assert_eq!(manager.active_playbacks(), 0);
}
