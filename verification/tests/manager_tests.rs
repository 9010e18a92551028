use sonic_deck::manager::MIN_PLAY_TIME_MS;
use sonic_deck::{AudioManager, SoundState, StopSignal, TriggerDecision};
use std::sync::mpsc;

struct ChannelStop(mpsc::Sender<()>);

impl StopSignal for ChannelStop {
    fn signal(&self) {
        let _ = self.0.send(());
    }
}

#[test]
fn test_audio_manager_new() {
    let manager: AudioManager<ChannelStop> = AudioManager::new();
    assert_eq!(manager.active_playbacks(), 0);
}

#[test]
fn test_playback_id_generation() {
    let mut manager: AudioManager<ChannelStop> = AudioManager::new();

    let id1 = manager.next_playback_id();
    let id2 = manager.next_playback_id();
    let id3 = manager.next_playback_id();

    assert_eq!(id1, "playback_1");
    assert_eq!(id2, "playback_2");
    assert_eq!(id3, "playback_3");
}

#[test]
fn test_playback_id_sequential() {
    let mut manager: AudioManager<ChannelStop> = AudioManager::new();

    for i in 1..=100 {
        let id = manager.next_playback_id();
        assert_eq!(id, format!("playback_{}", i));
    }
}

#[test]
fn test_register_and_signal_stop() {
    let mut manager = AudioManager::new();
    let (tx, rx) = mpsc::channel::<()>();

    manager.register_playback("playback_1".to_string(), ChannelStop(tx));

    // Signal stop should return true and send to channel
    assert!(manager.signal_stop("playback_1"));
    assert!(rx.try_recv().is_ok());

    // Signal again should return false (already removed)
    assert!(!manager.signal_stop("playback_1"));
}

#[test]
fn test_signal_stop_nonexistent() {
    let mut manager: AudioManager<ChannelStop> = AudioManager::new();
    assert!(!manager.signal_stop("nonexistent"));
}

#[test]
fn test_stop_all() {
    let mut manager = AudioManager::new();
    let (tx1, rx1) = mpsc::channel::<()>();
    let (tx2, rx2) = mpsc::channel::<()>();

    manager.register_playback("playback_1".to_string(), ChannelStop(tx1));
    manager.register_playback("playback_2".to_string(), ChannelStop(tx2));

    manager.stop_all();

    // Both channels should receive stop signal
    assert!(rx1.try_recv().is_ok());
    assert!(rx2.try_recv().is_ok());

    // Senders should be cleared
    assert_eq!(manager.active_playbacks(), 0);
}

#[test]
fn test_sound_state_decoding() {
    let mut manager: AudioManager<ChannelStop> = AudioManager::new();

    manager.register_sound_decoding("sound_1".to_string(), "playback_1".to_string());

    let state = manager.get_sound_state("sound_1");
    assert!(state.is_some());

    if let Some(SoundState::Decoding { playback_id }) = state {
        assert_eq!(playback_id, "playback_1");
    } else {
        panic!("Expected Decoding state");
    }
}

#[test]
fn test_sound_state_playing() {
    let mut manager: AudioManager<ChannelStop> = AudioManager::new();

    // Simulate transition to Playing state
    manager.register_sound_decoding("sound_1".to_string(), "playback_1".to_string());
    assert!(manager.mark_playing("sound_1", "playback_1", 1234));

    let state = manager.get_sound_state("sound_1");
    assert!(state.is_some());

    if let Some(SoundState::Playing { playback_id, started_at }) = state {
        assert_eq!(playback_id, "playback_1");
        assert_eq!(started_at, 1234);
    } else {
        panic!("Expected Playing state");
    }
}

#[test]
fn test_sound_state_nonexistent() {
    let manager: AudioManager<ChannelStop> = AudioManager::new();
    assert!(manager.get_sound_state("nonexistent").is_none());
}

#[test]
fn test_sound_state_playback_id() {
    let decoding = SoundState::Decoding {
        playback_id: "pb_1".to_string(),
    };
    assert_eq!(decoding.playback_id(), "pb_1");

    let playing = SoundState::Playing {
        playback_id: "pb_2".to_string(),
        started_at: 0,
    };
    assert_eq!(playing.playback_id(), "pb_2");
}

#[test]
fn test_unregister_playback_does_not_signal() {
    let mut manager = AudioManager::new();
    let (tx, rx) = mpsc::channel::<()>();
    manager.register_playback("playback_1".to_string(), ChannelStop(tx));
    assert!(manager.is_registered("playback_1"));
    manager.unregister_playback("playback_1");
    assert!(!manager.is_registered("playback_1"));
    assert!(rx.try_recv().is_err());
    // Unknown identifiers are not an error.
    manager.unregister_playback("playback_1");
    assert_eq!(manager.active_playbacks(), 0);
}

#[test]
fn test_register_same_id_replaces_handle() {
    let mut manager = AudioManager::new();
    let (tx1, rx1) = mpsc::channel::<()>();
    let (tx2, rx2) = mpsc::channel::<()>();
    manager.register_playback("playback_1".to_string(), ChannelStop(tx1));
    manager.register_playback("playback_1".to_string(), ChannelStop(tx2));
    assert_eq!(manager.active_playbacks(), 1);
    assert!(manager.signal_stop("playback_1"));
    assert!(rx2.try_recv().is_ok());
    assert!(rx1.try_recv().is_err());
}

#[test]
fn test_trigger_idle_sound_starts() {
    let mut manager: AudioManager<ChannelStop> = AudioManager::new();
    let decision = manager.trigger("s", "playback_1", 0);
    assert!(matches!(decision, TriggerDecision::Start));
    match manager.get_sound_state("s") {
        Some(SoundState::Decoding { playback_id }) => assert_eq!(playback_id, "playback_1"),
        other => panic!("unexpected state {:?}", other),
    }
}

#[test]
fn test_trigger_while_decoding_restarts_at_once() {
    let mut manager: AudioManager<ChannelStop> = AudioManager::new();
    manager.trigger("s", "playback_1", 100);
    let decision = manager.trigger("s", "playback_2", 100);
    match decision {
        TriggerDecision::Restart { old_playback_id } => assert_eq!(old_playback_id, "playback_1"),
        other => panic!("unexpected decision {:?}", other),
    }
    match manager.get_sound_state("s") {
        Some(SoundState::Decoding { playback_id }) => assert_eq!(playback_id, "playback_2"),
        other => panic!("unexpected state {:?}", other),
    }
}

#[test]
fn test_trigger_within_cooldown_is_ignored() {
    let mut manager: AudioManager<ChannelStop> = AudioManager::new();
    manager.trigger("s", "playback_1", 0);
    assert!(manager.mark_playing("s", "playback_1", 1000));
    for now in [1000u64, 1001, 1014] {
        let decision = manager.trigger("s", "playback_2", now);
        assert!(matches!(decision, TriggerDecision::Ignore), "at {}", now);
        match manager.get_sound_state("s") {
            Some(SoundState::Playing { playback_id, started_at }) => {
                assert_eq!(playback_id, "playback_1");
                assert_eq!(started_at, 1000);
            }
            other => panic!("unexpected state {:?}", other),
        }
    }
}

#[test]
fn test_trigger_after_cooldown_restarts_with_prior_id() {
    assert_eq!(MIN_PLAY_TIME_MS, 15);
    let mut manager: AudioManager<ChannelStop> = AudioManager::new();
    manager.trigger("s", "playback_1", 0);
    assert!(manager.mark_playing("s", "playback_1", 1000));
    let decision = manager.trigger("s", "playback_2", 1015);
    match decision {
        TriggerDecision::Restart { old_playback_id } => assert_eq!(old_playback_id, "playback_1"),
        other => panic!("unexpected decision {:?}", other),
    }
    match manager.get_sound_state("s") {
        Some(SoundState::Decoding { playback_id }) => assert_eq!(playback_id, "playback_2"),
        other => panic!("unexpected state {:?}", other),
    }
}

#[test]
fn test_trigger_with_clock_behind_start_is_ignored() {
    let mut manager: AudioManager<ChannelStop> = AudioManager::new();
    manager.trigger("s", "playback_1", 0);
    manager.mark_playing("s", "playback_1", 1000);
    assert!(matches!(manager.trigger("s", "playback_2", 900), TriggerDecision::Ignore));
}

#[test]
fn test_triggers_of_different_sounds_do_not_interfere() {
    let mut manager: AudioManager<ChannelStop> = AudioManager::new();
    assert!(matches!(manager.trigger("a", "playback_1", 0), TriggerDecision::Start));
    manager.mark_playing("a", "playback_1", 0);
    assert!(matches!(manager.trigger("b", "playback_2", 1), TriggerDecision::Start));
    assert!(matches!(manager.trigger("a", "playback_3", 1), TriggerDecision::Ignore));
}

#[test]
fn test_superseded_playback_cannot_mark_or_release() {
    let mut manager: AudioManager<ChannelStop> = AudioManager::new();
    manager.trigger("s", "playback_1", 0);
    manager.trigger("s", "playback_2", 0);
    // The first playback has been superseded.
    assert!(!manager.mark_playing("s", "playback_1", 5));
    assert!(!manager.release_sound("s", "playback_1"));
    match manager.get_sound_state("s") {
        Some(SoundState::Decoding { playback_id }) => assert_eq!(playback_id, "playback_2"),
        other => panic!("unexpected state {:?}", other),
    }
    // The current one can.
    assert!(manager.mark_playing("s", "playback_2", 7));
    assert!(manager.release_sound("s", "playback_2"));
    assert!(manager.get_sound_state("s").is_none());
    // Releasing again is a no-op.
    assert!(!manager.release_sound("s", "playback_2"));
}

#[test]
fn test_request_playback_reports_actions() {
    let mut manager: AudioManager<ChannelStop> = AudioManager::new();

    let first = manager.request_playback("s", 0);
    assert_eq!(first.playback_id.as_deref(), Some("playback_1"));
    assert_eq!(first.action, "started");
    assert_eq!(first.stopped_playback_id, None);

    let second = manager.request_playback("s", 0);
    assert_eq!(second.playback_id.as_deref(), Some("playback_2"));
    assert_eq!(second.action, "restarted");
    assert_eq!(second.stopped_playback_id.as_deref(), Some("playback_1"));

    manager.mark_playing("s", "playback_2", 100);
    let third = manager.request_playback("s", 110);
    assert_eq!(third.playback_id, None);
    assert_eq!(third.action, "ignored");
    assert_eq!(third.stopped_playback_id, None);

    // The ignored request used up an identifier.
    let fourth = manager.request_playback("s", 115);
    assert_eq!(fourth.playback_id.as_deref(), Some("playback_4"));
    assert_eq!(fourth.action, "restarted");
    assert_eq!(fourth.stopped_playback_id.as_deref(), Some("playback_2"));
}

#[test]
fn test_request_without_sound_always_starts() {
    let mut manager: AudioManager<ChannelStop> = AudioManager::new();
    for i in 1..=3 {
        let result = manager.request_playback("", 0);
        assert_eq!(result.playback_id, Some(format!("playback_{}", i)));
        assert_eq!(result.action, "started");
        assert_eq!(result.stopped_playback_id, None);
    }
    assert!(manager.get_sound_state("").is_none());
}

#[test]
fn test_finish_playback_cleans_both_tables() {
    let mut manager = AudioManager::new();
    let (tx, rx) = mpsc::channel::<()>();
    manager.trigger("s", "playback_1", 0);
    manager.register_playback("playback_1".to_string(), ChannelStop(tx));
    manager.finish_playback("s", "playback_1");
    assert!(!manager.is_registered("playback_1"));
    assert!(manager.get_sound_state("s").is_none());
    // Finishing is silent.
    assert!(rx.try_recv().is_err());
}
