use sonic_deck::waveform::{generate_peaks, magnitude_of, max_peak};
use sonic_deck::AudioData;

/// Create test AudioData with specified samples
fn create_test_audio(samples: Vec<f32>, sample_rate: u32, channels: u16) -> AudioData {
    AudioData {
        samples: samples.into_iter().map(f32::to_bits).collect(),
        sample_rate,
        channels,
        lufs: None,
    }
}

/// The peaks as amplitudes between zero and one.
fn normalized(peaks: &Vec<u32>) -> Vec<f32> {
    let top = f32::from_bits(max_peak(peaks));
    peaks
        .iter()
        .map(|p| if top > 0.0 { f32::from_bits(*p) / top } else { f32::from_bits(*p) })
        .collect()
}

#[test]
fn test_generate_peaks_empty_data() {
    let audio = create_test_audio(vec![], 48000, 2);
    let waveform = generate_peaks(&audio, 100);

    assert!(waveform.peaks.is_empty());
    assert_eq!(waveform.duration_ms, 0);
}

#[test]
fn test_generate_peaks_zero_peaks() {
    let audio = create_test_audio(vec![0.5, 0.5], 48000, 2);
    let waveform = generate_peaks(&audio, 0);

    assert!(waveform.peaks.is_empty());
}

#[test]
fn test_generate_peaks_mono() {
    // 48000 samples @ 48kHz = 1 second
    let samples: Vec<f32> = (0..48000).map(|i| i as f32 / 48000.0).collect();
    let audio = create_test_audio(samples, 48000, 1);
    let waveform = generate_peaks(&audio, 10);

    assert_eq!(waveform.peaks.len(), 10);
    assert_eq!(waveform.duration_ms, 1000);
}

#[test]
fn test_generate_peaks_stereo() {
    // 96000 samples (48000 frames * 2 channels) @ 48kHz = 1 second
    let samples: Vec<f32> = (0..96000).map(|i| i as f32 / 96000.0).collect();
    let audio = create_test_audio(samples, 48000, 2);
    let waveform = generate_peaks(&audio, 10);

    assert_eq!(waveform.peaks.len(), 10);
    assert_eq!(waveform.duration_ms, 1000);
}

#[test]
fn test_generate_peaks_normalization() {
    // Create audio with known peak values
    let samples = vec![0.0, 0.5, 1.0, 0.5, 0.0, -0.5, -1.0, -0.5];
    let audio = create_test_audio(samples, 48000, 1);
    let waveform = generate_peaks(&audio, 2);
    let peaks = normalized(&waveform.peaks);

    // All peaks should be normalized to 0.0-1.0
    for peak in &peaks {
        assert!(*peak >= 0.0 && *peak <= 1.0);
    }
    // The maximum peak should be 1.0 after normalization
    let max_peak = peaks.iter().cloned().fold(0.0f32, f32::max);
    assert!((max_peak - 1.0).abs() < 0.001);
}

#[test]
fn test_generate_peaks_silent_audio() {
    // All zeros - peaks should all be 0
    let samples = vec![0.0; 1000];
    let audio = create_test_audio(samples, 48000, 1);
    let waveform = generate_peaks(&audio, 10);

    for peak in &normalized(&waveform.peaks) {
        assert_eq!(*peak, 0.0);
    }
}

#[test]
fn test_duration_calculation() {
    // 48000 samples @ 48kHz mono = 1 second = 1000ms
    let audio = create_test_audio(vec![0.0; 48000], 48000, 1);
    let waveform = generate_peaks(&audio, 10);
    assert_eq!(waveform.duration_ms, 1000);

    // 44100 samples @ 44100Hz mono = 1 second = 1000ms
    let audio2 = create_test_audio(vec![0.0; 44100], 44100, 1);
    let waveform2 = generate_peaks(&audio2, 10);
    assert_eq!(waveform2.duration_ms, 1000);

    // 24000 samples @ 48kHz mono = 0.5 second = 500ms
    let audio3 = create_test_audio(vec![0.0; 24000], 48000, 1);
    let waveform3 = generate_peaks(&audio3, 10);
    assert_eq!(waveform3.duration_ms, 500);
}

#[test]
fn test_peaks_are_segment_maxima() {
    let samples = vec![0.1, -0.9, 0.2, 0.3, -0.4, 0.25, 0.8, -0.7, 0.05];
    let audio = create_test_audio(samples, 48000, 1);
    // Nine frames in four segments: two frames each, the ninth is left out.
    let waveform = generate_peaks(&audio, 4);
    let peaks: Vec<f32> = waveform.peaks.iter().map(|p| f32::from_bits(*p)).collect();
    assert_eq!(peaks, vec![0.9, 0.3, 0.4, 0.8]);
    assert_eq!(f32::from_bits(max_peak(&waveform.peaks)), 0.9);
}

#[test]
fn test_peaks_cover_all_channels_of_a_frame() {
    // Two stereo frames per segment.
    let samples = vec![0.1, 0.2, 0.3, -0.6, 0.5, 0.4, 0.3, 0.2];
    let audio = create_test_audio(samples, 48000, 2);
    let waveform = generate_peaks(&audio, 2);
    let peaks: Vec<f32> = waveform.peaks.iter().map(|p| f32::from_bits(*p)).collect();
    assert_eq!(peaks, vec![0.6, 0.5]);
}

#[test]
fn test_more_peaks_than_frames() {
    let audio = create_test_audio(vec![0.5, -0.25], 48000, 1);
    let waveform = generate_peaks(&audio, 5);
    let peaks: Vec<f32> = waveform.peaks.iter().map(|p| f32::from_bits(*p)).collect();
    assert_eq!(peaks, vec![0.5, 0.25, 0.0, 0.0, 0.0]);
}

#[test]
fn test_magnitude_follows_amplitude() {
    let values = [0.0f32, -0.0, 1.0, -1.0, 0.5, -0.5, 1e-30, -3.5, f32::MAX, f32::MIN, f32::INFINITY];
    for v in values {
        assert_eq!(f32::from_bits(magnitude_of(v.to_bits())), v.abs());
    }
    for a in values {
        for b in values {
            assert_eq!(
                magnitude_of(a.to_bits()) > magnitude_of(b.to_bits()),
                a.abs() > b.abs()
            );
        }
    }
    // What is not a number is not an amplitude.
    assert_eq!(magnitude_of(f32::NAN.to_bits()), 0);
    assert_eq!(magnitude_of((-f32::NAN).to_bits()), 0);
}

#[test]
fn test_max_peak_of_nothing_is_nothing() {
    assert_eq!(max_peak(&vec![]), 0);
    assert_eq!(max_peak(&vec![3, 9, 2]), 9);
}

#[test]
fn test_waveform_of_sound_without_channels_is_empty() {
    let audio = AudioData { samples: vec![1, 2, 3], sample_rate: 48000, channels: 0, lufs: None };
    let waveform = generate_peaks(&audio, 4);
    assert!(waveform.peaks.is_empty());
    assert_eq!(waveform.duration_ms, 0);
}
