use vad_core::{downmix, queue_capacity, silence_samples_for, PipelineError, StreamParams};

#[test]
fn zero_sample_rate_is_rejected() {
    assert_eq!(StreamParams::new(0, 2), Err(PipelineError::BadConfig));
}

#[test]
fn zero_channels_are_rejected() {
    assert_eq!(StreamParams::new(48_000, 0), Err(PipelineError::BadConfig));
}

#[test]
fn analysis_rate_follows_channel_count() {
    let mono = StreamParams::new(48_000, 1).unwrap();
    assert_eq!(mono.analysis_rate(), 48_000);
    let stereo = StreamParams::new(48_000, 2).unwrap();
    assert_eq!(stereo.analysis_rate(), 24_000);
    let quad = StreamParams::new(48_000, 4).unwrap();
    assert_eq!(quad.analysis_rate(), 12_000);
}

#[test]
fn silence_threshold_converts_to_samples() {
    // the default 1000 ms at a 16 kHz analysis rate
    assert_eq!(silence_samples_for(1000, 16_000), 16_000);
    assert_eq!(silence_samples_for(1500, 48_000), 72_000);
    assert_eq!(silence_samples_for(1, 999), 0);
}

#[test]
fn queue_capacity_doubles_the_latency_window() {
    let stereo = StreamParams::new(48_000, 2).unwrap();
    // 7000 ms of latency budget: 2 * (7 s * 48000) * 2 channels
    assert_eq!(queue_capacity(7000, stereo), 2 * 7 * 48_000 * 2);
    let mono = StreamParams::new(16_000, 1).unwrap();
    assert_eq!(queue_capacity(500, mono), 16_000);
}

#[test]
fn downmix_averages_each_frame() {
    let interleaved = vec![10, 20, -10, -20, 5, -5];
    assert_eq!(downmix(&interleaved, 2), vec![15, -15, 0]);
}

#[test]
fn downmix_rounds_toward_zero() {
    assert_eq!(downmix(&vec![3, 4], 2), vec![3]);
    assert_eq!(downmix(&vec![-3, -4], 2), vec![-3]);
}

#[test]
fn downmix_drops_a_trailing_partial_frame() {
    assert_eq!(downmix(&vec![6, 6, 7], 2), vec![6]);
}

#[test]
fn downmix_of_mono_is_identity() {
    let samples = vec![1, -2, 3];
    assert_eq!(downmix(&samples, 1), samples);
}
