use sonic_deck::render::{
    calculate_lufs_gain, ladder_step, negotiate_buffer, BufferChoice, Cursor, Slot, StreamPlan,
    MAX_GAIN_CENTIBEL,
};
use sonic_deck::AudioError;
use std::cell::RefCell;

fn plan(
    sample_count: usize,
    source_rate: u32,
    source_channels: u16,
    device_rate: u32,
    device_channels: u16,
    start: Option<usize>,
    end: Option<usize>,
) -> (StreamPlan, Cursor) {
    StreamPlan::new(sample_count, source_rate, source_channels, device_rate, device_channels, start, end)
        .expect("a usable plan")
}

// Loudness values are in hundredths of a unit: -20 LUFS is -2000.

#[test]
fn test_lufs_gain_disabled() {
    let gain = calculate_lufs_gain(Some(-2000), -1400, false);
    assert_eq!(gain, 0);
}

#[test]
fn test_lufs_gain_no_data() {
    let gain = calculate_lufs_gain(None, -1400, true);
    assert_eq!(gain, 0);
}

#[test]
fn test_lufs_gain_quiet_sound() {
    // Sound at -20 LUFS, target -14 LUFS -> boost by 6 dB
    let gain = calculate_lufs_gain(Some(-2000), -1400, true);
    assert_eq!(gain, 600);
}

#[test]
fn test_lufs_gain_loud_sound() {
    // Sound at -10 LUFS, target -14 LUFS -> reduce by 4 dB
    let gain = calculate_lufs_gain(Some(-1000), -1400, true);
    assert_eq!(gain, -400);
}

#[test]
fn test_lufs_gain_clamped_boost() {
    // Sound at -40 LUFS, target -14 LUFS -> would be +26 dB, clamped to +12 dB
    let gain = calculate_lufs_gain(Some(-4000), -1400, true);
    assert_eq!(gain, 1200);
    assert_eq!(gain, MAX_GAIN_CENTIBEL);
    // The linear gain for it is ten to the power of twelve twentieths.
    let linear = 10.0_f32.powf(gain as f32 / 100.0 / 20.0);
    assert!((linear - 10.0_f32.powf(12.0 / 20.0)).abs() < 1e-6);
    assert!((linear - 10.0_f32.powf(26.0 / 20.0)).abs() > 1.0);
}

#[test]
fn test_lufs_gain_clamped_cut() {
    // Sound at 0 LUFS, target -14 LUFS -> would be -14 dB, clamped to -12 dB
    let gain = calculate_lufs_gain(Some(0), -1400, true);
    assert_eq!(gain, -1200);
}

#[test]
fn test_lufs_gain_at_target() {
    // Sound already at target -> no adjustment
    let gain = calculate_lufs_gain(Some(-1400), -1400, true);
    assert_eq!(gain, 0);
}

#[test]
fn test_lufs_gain_extremes_do_not_overflow() {
    assert_eq!(calculate_lufs_gain(Some(i32::MIN), i32::MAX, true), 1200);
    assert_eq!(calculate_lufs_gain(Some(i32::MAX), i32::MIN, true), -1200);
    assert_eq!(calculate_lufs_gain(Some(-1400), -200, true), 1200);
    assert_eq!(calculate_lufs_gain(Some(-1400), -201, true), 1199);
    assert_eq!(calculate_lufs_gain(Some(-1400), -2600, true), -1200);
    assert_eq!(calculate_lufs_gain(Some(-1400), -2599, true), -1199);
}

#[test]
fn test_plan_rejects_zero_rates_and_channels() {
    assert!(StreamPlan::new(10, 0, 1, 48000, 2, None, None).is_none());
    assert!(StreamPlan::new(10, 48000, 0, 48000, 2, None, None).is_none());
    assert!(StreamPlan::new(10, 48000, 1, 0, 2, None, None).is_none());
    assert!(StreamPlan::new(10, 48000, 1, 48000, 0, None, None).is_none());
    assert!(StreamPlan::new(0, 48000, 1, 48000, 1, None, None).is_some());
}

#[test]
fn test_plan_window() {
    let (p, c) = plan(100, 48000, 2, 44100, 2, None, None);
    assert_eq!(p.end_frame, 50);
    assert_eq!(c, Cursor { frame: 0, phase: 0 });
    let (p, c) = plan(100, 48000, 2, 44100, 2, Some(7), Some(20));
    assert_eq!(p.end_frame, 20);
    assert_eq!(c, Cursor { frame: 7, phase: 0 });
    // An end beyond the source is the source's end.
    let (p, _) = plan(100, 48000, 2, 44100, 2, None, Some(1000));
    assert_eq!(p.end_frame, 50);
    // A trailing partial frame is no frame.
    let (p, _) = plan(101, 48000, 2, 44100, 2, None, None);
    assert_eq!(p.end_frame, 50);
}

#[test]
fn test_unit_ratio_reproduces_source_without_drift() {
    let frames = 10_000usize;
    let (p, mut cursor) = plan(frames, 48000, 1, 48000, 1, None, None);
    for k in 0..frames {
        assert_eq!(cursor, Cursor { frame: k, phase: 0 });
        match p.slot(&cursor, 0) {
            Slot::Blend { lower, upper, num, den } => {
                assert_eq!((lower, upper, num, den), (k, k + 1, 0, 48000));
            }
            Slot::Hold { index } => {
                assert_eq!(index, k);
                assert_eq!(k, frames - 1);
            }
            Slot::Silence => panic!("frame {} is silent", k),
        }
        p.advance(&mut cursor);
    }
    assert_eq!(p.slot(&cursor, 0), Slot::Silence);
}

#[test]
fn test_extra_device_channels_are_silent() {
    // A stereo source on a device with six channels.
    let source_frames = 64usize;
    let (p, mut cursor) = plan(source_frames * 2, 48000, 2, 48000, 6, None, None);
    let block = p.plan_block(&mut cursor, 6 * 100);
    assert_eq!(block.len(), 600);
    for (i, slot) in block.iter().enumerate() {
        let channel = i % 6;
        let frame = i / 6;
        if channel >= 2 {
            assert_eq!(*slot, Slot::Silence, "sample {}", i);
        } else if frame < source_frames {
            assert_ne!(*slot, Slot::Silence, "sample {}", i);
        } else {
            assert_eq!(*slot, Slot::Silence, "sample {}", i);
        }
    }
}

#[test]
fn test_mono_source_on_stereo_device_uses_first_channel_only() {
    let (p, cursor) = plan(10, 48000, 1, 48000, 2, None, None);
    assert_eq!(p.slot(&cursor, 0), Slot::Blend { lower: 0, upper: 1, num: 0, den: 48000 });
    assert_eq!(p.slot(&cursor, 1), Slot::Silence);
}

#[test]
fn test_downsampling_positions() {
    // 48 kHz source on a 32 kHz device: one and a half source frames per
    // output frame.
    let (p, mut cursor) = plan(100, 48000, 1, 32000, 1, None, None);
    let expected = [(0usize, 0u32), (1, 16000), (3, 0), (4, 16000), (6, 0)];
    for (frame, phase) in expected {
        assert_eq!(cursor, Cursor { frame, phase });
        assert_eq!(
            p.slot(&cursor, 0),
            Slot::Blend { lower: frame, upper: frame + 1, num: phase, den: 32000 }
        );
        p.advance(&mut cursor);
    }
}

#[test]
fn test_upsampling_positions() {
    // 44.1 kHz source on a 48 kHz device.
    let (p, mut cursor) = plan(1000, 44100, 1, 48000, 1, None, None);
    for k in 0..1000u64 {
        let exact = k * 44100;
        assert_eq!(cursor.frame as u64, exact / 48000);
        assert_eq!(cursor.phase as u64, exact % 48000);
        p.advance(&mut cursor);
    }
}

#[test]
fn test_interleaved_indices() {
    let (p, _) = plan(30, 48000, 3, 48000, 3, None, None);
    let cursor = Cursor { frame: 4, phase: 100 };
    assert_eq!(p.slot(&cursor, 0), Slot::Blend { lower: 12, upper: 15, num: 100, den: 48000 });
    assert_eq!(p.slot(&cursor, 2), Slot::Blend { lower: 14, upper: 17, num: 100, den: 48000 });
    // The last frame has no successor.
    let last = Cursor { frame: 9, phase: 100 };
    assert_eq!(p.slot(&last, 1), Slot::Hold { index: 28 });
}

#[test]
fn test_trailing_partial_frame_is_blended_in() {
    // Seven samples of a stereo source: three frames and one sample more.
    let (p, _) = plan(7, 48000, 2, 48000, 2, None, None);
    assert_eq!(p.end_frame, 3);
    let last = Cursor { frame: 2, phase: 5 };
    assert_eq!(p.slot(&last, 0), Slot::Blend { lower: 4, upper: 6, num: 5, den: 48000 });
    assert_eq!(p.slot(&last, 1), Slot::Hold { index: 5 });
}

#[test]
fn test_stream_stays_silent_after_its_end() {
    let (p, mut cursor) = plan(4, 48000, 1, 48000, 1, None, None);
    for _ in 0..4 {
        p.advance(&mut cursor);
    }
    let at_end = cursor;
    assert_eq!(at_end, Cursor { frame: 4, phase: 0 });
    for _ in 0..1000 {
        p.advance(&mut cursor);
        assert_eq!(cursor, at_end);
        assert_eq!(p.slot(&cursor, 0), Slot::Silence);
    }
}

#[test]
fn test_start_beyond_end_is_silent() {
    let (p, mut cursor) = plan(10, 48000, 1, 48000, 1, Some(20), Some(5));
    assert_eq!(p.slot(&cursor, 0), Slot::Silence);
    let block = p.plan_block(&mut cursor, 8);
    assert!(block.iter().all(|s| *s == Slot::Silence));
    assert_eq!(cursor, Cursor { frame: 20, phase: 0 });
}

#[test]
fn test_plan_block_matches_slot_by_slot() {
    let (p, start) = plan(200, 44100, 2, 48000, 3, Some(3), Some(90));
    let mut by_block = start;
    let block = p.plan_block(&mut by_block, 3 * 40 + 2);
    let mut cursor = start;
    let mut expected = Vec::new();
    for i in 0..(3 * 40 + 2) {
        expected.push(p.slot(&cursor, i % 3));
        if i % 3 == 2 {
            p.advance(&mut cursor);
        }
    }
    // The trailing partial frame moves the stream on as well.
    p.advance(&mut cursor);
    assert_eq!(block, expected);
    assert_eq!(by_block, cursor);

    // An empty block leaves the stream where it is.
    let mut unmoved = start;
    assert!(p.plan_block(&mut unmoved, 0).is_empty());
    assert_eq!(unmoved, start);
}

#[test]
fn test_half_second_of_mono_at_48k_is_24000_audible_frames() {
    // One second of mono audio at 48 kHz, trimmed to its first 500 ms.
    let end = sonic_deck::session::trim_frame(500, 48000);
    let start = sonic_deck::session::trim_frame(0, 48000);
    assert_eq!((start, end), (0, 24000));
    for device_channels in [1u16, 2] {
        let (p, mut cursor) = plan(48000, 48000, 1, 48000, device_channels, Some(start), Some(end));
        let width = device_channels as usize;
        let mut audible = 0usize;
        let mut silent_after = 0usize;
        for _ in 0..48 {
            let block = p.plan_block(&mut cursor, 1000 * width);
            for frame in block.chunks(width) {
                if frame[0] != Slot::Silence {
                    assert_eq!(silent_after, 0, "audio after silence");
                    audible += 1;
                } else {
                    silent_after += 1;
                }
            }
        }
        assert_eq!(audible, 24000);
        assert_eq!(silent_after, 24000);
    }
}

#[test]
fn test_ladder_order() {
    assert_eq!(ladder_step(0), Some(BufferChoice::Fixed(256)));
    assert_eq!(ladder_step(1), Some(BufferChoice::Fixed(512)));
    assert_eq!(ladder_step(2), Some(BufferChoice::Fixed(1024)));
    assert_eq!(ladder_step(3), Some(BufferChoice::DeviceDefault));
    assert_eq!(ladder_step(4), None);
    assert_eq!(ladder_step(usize::MAX), None);
}

#[test]
fn test_negotiation_takes_first_accepted_size() {
    let tried = RefCell::new(Vec::new());
    let built = negotiate_buffer(|choice| {
        tried.borrow_mut().push(choice);
        Ok::<u32, AudioError>(7)
    });
    assert!(matches!(built, Ok((7, BufferChoice::Fixed(256)))));
    assert_eq!(*tried.borrow(), vec![BufferChoice::Fixed(256)]);
}

#[test]
fn test_negotiation_falls_back_in_order() {
    let tried = RefCell::new(Vec::new());
    let built = negotiate_buffer(|choice| {
        tried.borrow_mut().push(choice);
        match choice {
            BufferChoice::Fixed(1024) => Ok("stream"),
            _ => Err(AudioError::StreamBuild("unsupported".to_string())),
        }
    });
    assert!(matches!(built, Ok(("stream", BufferChoice::Fixed(1024)))));
    assert_eq!(
        *tried.borrow(),
        vec![BufferChoice::Fixed(256), BufferChoice::Fixed(512), BufferChoice::Fixed(1024)]
    );
}

#[test]
fn test_negotiation_ends_with_device_default() {
    let tried = RefCell::new(Vec::new());
    let built = negotiate_buffer(|choice| {
        tried.borrow_mut().push(choice);
        match choice {
            BufferChoice::DeviceDefault => Ok(1u8),
            BufferChoice::Fixed(_) => Err(AudioError::StreamBuild("no".to_string())),
        }
    });
    assert!(matches!(built, Ok((1, BufferChoice::DeviceDefault))));
    assert_eq!(tried.borrow().len(), 4);
}

#[test]
fn test_negotiation_reports_last_error() {
    let built: Result<((), BufferChoice), AudioError> = negotiate_buffer(|choice| match choice {
        BufferChoice::Fixed(n) => Err(AudioError::StreamBuild(format!("fixed {}", n))),
        BufferChoice::DeviceDefault => Err(AudioError::StreamBuild("default".to_string())),
    });
    match built {
        Err(AudioError::StreamBuild(text)) => assert_eq!(text, "default"),
        other => panic!("unexpected {:?}", other),
    }
}

#[test]
fn test_plan_block_into_reuses_the_vector() {
    let (p, start) = plan(64, 48000, 2, 44100, 2, None, None);
    let mut fresh = start;
    let expected_first = p.plan_block(&mut fresh, 10);
    let expected_second = p.plan_block(&mut fresh, 6);

    let mut cursor = start;
    let mut slots = vec![Slot::Hold { index: 99 }; 3];
    p.plan_block_into(&mut cursor, &mut slots, 10);
    assert_eq!(slots, expected_first);
    p.plan_block_into(&mut cursor, &mut slots, 6);
    assert_eq!(slots, expected_second);
    assert_eq!(cursor, fresh);
    p.plan_block_into(&mut cursor, &mut slots, 0);
    assert!(slots.is_empty());
    assert_eq!(cursor, fresh);
}

/// The value of a planned sample, worked out as a stream does it.
fn value_of(slot: Slot, samples: &[f32]) -> f32 {
    match slot {
        Slot::Silence => 0.0,
        Slot::Hold { index } => samples[index],
        Slot::Blend { lower, upper, num, den } => {
            let frac = (num as f64 / den as f64) as f32;
            samples[lower] + (samples[upper] - samples[lower]) * frac
        }
    }
}

#[test]
fn test_unit_ratio_output_equals_source_samples() {
    let samples: Vec<f32> = (0..4000).map(|i| ((i * 37 % 101) as f32 - 50.0) / 64.0).collect();
    for rate in [8000u32, 44100, 48000, 96000] {
        let (p, mut cursor) = plan(samples.len(), rate, 2, rate, 2, None, None);
        let block = p.plan_block(&mut cursor, samples.len());
        for (i, slot) in block.iter().enumerate() {
            assert_eq!(value_of(*slot, &samples).to_bits(), samples[i].to_bits(), "sample {}", i);
        }
    }
}

#[test]
fn test_half_rate_source_is_interpolated_midway() {
    // A 24 kHz source on a 48 kHz device: every second output frame lies
    // halfway between two source frames.
    let samples = [0.0f32, 1.0, 3.0, 2.0];
    let (p, mut cursor) = plan(samples.len(), 24000, 1, 48000, 1, None, None);
    let block = p.plan_block(&mut cursor, 8);
    let values: Vec<f32> = block.iter().map(|s| value_of(*s, &samples)).collect();
    assert_eq!(values, vec![0.0, 0.5, 1.0, 2.0, 3.0, 2.5, 2.0, 2.0]);
}
