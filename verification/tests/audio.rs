use scrybe_core::audio::trim_silence;
use scrybe_core::sample::{Sample, SILENCE_THRESHOLD_BITS};

fn sample(value: f32) -> Sample {
    Sample::from_bits(value.to_bits())
}

fn samples(values: &[f32]) -> Vec<Sample> {
    values.iter().map(|v| sample(*v)).collect()
}

fn floats(samples: &[Sample]) -> Vec<f32> {
    samples.iter().map(|s| f32::from_bits(s.bits)).collect()
}

#[test]
fn silence_threshold_is_one_hundredth() {
    assert_eq!(SILENCE_THRESHOLD_BITS, 0.01f32.to_bits());
    assert_eq!(Sample::silence_threshold().bits, 0.01f32.to_bits());
}

#[test]
fn at_or_above_agrees_with_float_comparison() {
    let values = [
        0.0f32,
        -0.0,
        0.01,
        -0.01,
        0.009999,
        0.5,
        -0.5,
        1.0,
        -1.0,
        f32::MIN_POSITIVE,
        1.0e-40,
        f32::MAX,
        f32::MIN,
        f32::INFINITY,
        f32::NEG_INFINITY,
        f32::NAN,
        -f32::NAN,
    ];
    for x in values {
        for t in values {
            assert_eq!(
                sample(x).at_or_above(sample(t)),
                x.abs() >= t,
                "x = {:?}, threshold = {:?}",
                x,
                t
            );
        }
    }
}

#[test]
fn at_or_above_at_the_threshold_itself() {
    assert!(sample(0.01).at_or_above(sample(0.01)));
    assert!(sample(-0.01).at_or_above(sample(0.01)));
    assert!(!sample(0.0099).at_or_above(sample(0.01)));
}

#[test]
fn trim_all_below_threshold_leaves_nothing() {
    let mut buffer = samples(&[0.0, 0.001, -0.002, 0.009, -0.0099]);
    trim_silence(&mut buffer, sample(0.01));
    assert_eq!(buffer.len(), 0);
}

#[test]
fn trim_empty_buffer_stays_empty() {
    let mut buffer: Vec<Sample> = Vec::new();
    trim_silence(&mut buffer, sample(0.01));
    assert!(buffer.is_empty());
}

#[test]
fn trim_single_sample_at_each_position() {
    for k in 0..6 {
        let mut values = vec![0.0f32; 6];
        values[k] = 0.01;
        let mut buffer = samples(&values);
        trim_silence(&mut buffer, sample(0.01));
        assert_eq!(floats(&buffer), vec![0.01f32], "k = {}", k);
    }
}

#[test]
fn trim_keeps_silence_between_loud_samples() {
    let mut buffer = samples(&[0.0, 0.001, 0.5, 0.0, 0.0, -0.3, 0.002, 0.0]);
    trim_silence(&mut buffer, sample(0.01));
    assert_eq!(floats(&buffer), vec![0.5f32, 0.0, 0.0, -0.3]);
}

#[test]
fn trim_leaves_a_loud_buffer_alone() {
    let mut buffer = samples(&[0.2, 0.0, -0.2]);
    trim_silence(&mut buffer, sample(0.01));
    assert_eq!(floats(&buffer), vec![0.2f32, 0.0, -0.2]);
}

#[test]
fn trim_treats_nan_as_silence() {
    let mut buffer = samples(&[f32::NAN, 0.4, f32::NAN]);
    trim_silence(&mut buffer, sample(0.01));
    assert_eq!(floats(&buffer), vec![0.4f32]);
}

#[test]
fn trim_against_nan_threshold_leaves_nothing() {
    let mut buffer = samples(&[0.4, 0.9]);
    trim_silence(&mut buffer, sample(f32::NAN));
    assert!(buffer.is_empty());
}

#[test]
fn trim_against_zero_threshold_keeps_all_numbers() {
    let mut buffer = samples(&[0.0, 0.0, 0.0]);
    trim_silence(&mut buffer, sample(0.0));
    assert_eq!(buffer.len(), 3);
}
