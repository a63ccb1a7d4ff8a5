use scrybe_core::sample::Sample;
use scrybe_core::whisper::{EngineSpan, RecognitionError, WhisperManager, WhisperText};
use scrybe_core::window::{
    RolloverPolicy, SegmentWindow, WindowSettings, DEFAULT_SEGMENT_SECS, MIN_WINDOW_SAMPLES,
};

fn constant(value: f32, count: usize) -> Vec<Sample> {
    vec![Sample::from_bits(value.to_bits()); count]
}

fn ramp(count: usize, offset: usize) -> Vec<Sample> {
    (0..count).map(|i| Sample::from_bits((0.1f32 + (offset + i) as f32).to_bits())).collect()
}

fn settings(policy: RolloverPolicy) -> WindowSettings {
    WindowSettings { policy, ..WindowSettings::default() }
}

fn unit(index: u64, text: &str) -> WhisperText {
    WhisperText { index, start_time: 0, end_time: 1, text: text.to_string() }
}

#[test]
fn default_settings() {
    let s = WindowSettings::default();
    assert_eq!(s.segment_secs, 15);
    assert_eq!(DEFAULT_SEGMENT_SECS, 15);
    assert_eq!(s.min_samples, 4000);
    assert_eq!(MIN_WINDOW_SAMPLES, 4000);
    assert_eq!(s.threshold.bits, 0.01f32.to_bits());
    assert_eq!(s.policy, RolloverPolicy::Discard);
}

#[test]
fn new_window_is_empty() {
    let w = SegmentWindow::new("first".to_string(), 1234);
    assert_eq!(w.current().id, "first");
    assert_eq!(w.current().index, 0);
    assert!(w.current().items.is_empty());
    assert!(w.samples().is_empty());
    assert_eq!(w.started_ms(), 1234);
}

#[test]
fn start_gives_a_hyphenated_id() {
    let a = SegmentWindow::start(5);
    let b = SegmentWindow::start(5);
    assert_eq!(a.current().id.chars().count(), 36);
    assert_eq!(a.current().id.matches('-').count(), 4);
    assert_ne!(a.current().id, b.current().id);
    assert_eq!(a.started_ms(), 5);
}

#[test]
fn ingest_trims_and_appends() {
    let mut w = SegmentWindow::new("s".to_string(), 0);
    let mut captured = constant(0.0, 10);
    captured.extend(constant(0.5, 5000));
    captured.extend(constant(0.001, 7));
    let invoke = w.ingest(&mut captured, &WindowSettings::default());
    assert!(invoke);
    assert!(captured.is_empty());
    assert_eq!(w.samples(), &constant(0.5, 5000));
}

#[test]
fn ingest_needs_more_than_the_minimum() {
    let mut w = SegmentWindow::new("s".to_string(), 0);
    let mut captured = constant(0.5, 4000);
    assert!(!w.ingest(&mut captured, &WindowSettings::default()));
    assert_eq!(w.samples().len(), 4000);
    let mut captured = constant(0.5, 1);
    assert!(w.ingest(&mut captured, &WindowSettings::default()));
    assert_eq!(w.samples().len(), 4001);
}

#[test]
fn ingest_of_silence_adds_nothing_and_skips() {
    let mut w = SegmentWindow::new("s".to_string(), 0);
    let mut captured = constant(0.5, 5000);
    assert!(w.ingest(&mut captured, &WindowSettings::default()));
    let mut silent = constant(0.001, 8000);
    assert!(!w.ingest(&mut silent, &WindowSettings::default()));
    assert!(silent.is_empty());
    assert_eq!(w.samples().len(), 5000);
}

#[test]
fn record_replaces_units() {
    let mut w = SegmentWindow::new("s".to_string(), 0);
    w.record(vec![unit(0, "a")]);
    w.record(vec![unit(0, "a"), unit(1, "b")]);
    assert_eq!(w.current().items, vec![unit(0, "a"), unit(1, "b")]);
    assert_eq!(w.current().id, "s");
}

#[test]
fn due_only_after_more_than_the_duration() {
    let w = SegmentWindow::new("s".to_string(), 1000);
    assert!(!w.is_due(1000, 15));
    assert!(!w.is_due(16_000, 15));
    assert!(w.is_due(16_001, 15));
    assert!(!w.is_due(0, 15));
    assert!(w.is_due(1001, 0));
    assert!(!w.is_due(u64::MAX, u64::MAX));
}

#[test]
fn roll_over_discard() {
    let mut w = SegmentWindow::new("a".to_string(), 0);
    let mut captured = ramp(10, 0);
    w.ingest(&mut captured, &WindowSettings::default());
    w.record(vec![unit(0, "x")]);
    w.roll_over("b".to_string(), 99, RolloverPolicy::Discard);
    assert_eq!(w.current().id, "b");
    assert_eq!(w.current().index, 1);
    assert!(w.current().items.is_empty());
    assert!(w.samples().is_empty());
    assert_eq!(w.started_ms(), 99);
}

#[test]
fn roll_over_retains_tail() {
    let mut w = SegmentWindow::new("a".to_string(), 0);
    let mut captured = ramp(10, 0);
    w.ingest(&mut captured, &WindowSettings::default());
    w.roll_over("b".to_string(), 1, RolloverPolicy::RetainTail { samples: 4 });
    assert_eq!(w.samples(), &ramp(4, 6));
    w.roll_over("c".to_string(), 2, RolloverPolicy::RetainTail { samples: 8 });
    assert_eq!(w.samples(), &ramp(4, 6));
    assert_eq!(w.current().index, 2);
    w.roll_over("d".to_string(), 3, RolloverPolicy::RetainTail { samples: 0 });
    assert!(w.samples().is_empty());
}

#[test]
fn finish_cycle_without_engine_run() {
    let mut w = SegmentWindow::new("a".to_string(), 0);
    let report = w.finish_cycle(None, 500, &WindowSettings::default());
    assert_eq!(report.recognized, None);
    assert_eq!(report.opened, None);
    assert_eq!(w.current().id, "a");
}

#[test]
fn finish_cycle_records_and_reports() {
    let mut w = SegmentWindow::new("a".to_string(), 0);
    let report = w.finish_cycle(Some(Ok(vec![unit(0, "x")])), 500, &WindowSettings::default());
    let snapshot = report.recognized.unwrap();
    assert_eq!(snapshot.id, "a");
    assert_eq!(snapshot.index, 0);
    assert_eq!(snapshot.items, vec![unit(0, "x")]);
    assert_eq!(report.opened, None);
    assert_eq!(w.current(), &snapshot);
}

#[test]
fn finish_cycle_rolls_over_when_due() {
    let mut w = SegmentWindow::new("a".to_string(), 0);
    let mut captured = constant(0.5, 100);
    w.ingest(&mut captured, &WindowSettings::default());
    let report = w.finish_cycle(Some(Ok(vec![unit(0, "x")])), 15_001, &WindowSettings::default());
    let recognized = report.recognized.unwrap();
    assert_eq!(recognized.index, 0);
    assert_eq!(recognized.items, vec![unit(0, "x")]);
    let opened = report.opened.unwrap();
    assert_eq!(opened.index, 1);
    assert!(opened.items.is_empty());
    assert_eq!(opened.id.chars().count(), 36);
    assert_ne!(opened.id, "a");
    assert_eq!(w.current(), &opened);
    assert!(w.samples().is_empty());
    assert_eq!(w.started_ms(), 15_001);
}

#[test]
fn twenty_seconds_in_one_second_chunks_make_two_segments() {
    let settings = settings(RolloverPolicy::Discard);
    let mut manager = WhisperManager::new(Ok(())).unwrap();
    let mut w = SegmentWindow::new("first".to_string(), 0);
    let mut opened_at: Vec<u64> = Vec::new();
    let mut segments = vec![w.current().clone()];
    for second in 1..=20u64 {
        let mut captured = constant(0.25, 16000);
        let invoke = w.ingest(&mut captured, &settings);
        assert!(invoke);
        let spans = vec![EngineSpan {
            text: format!("{} samples", w.samples().len()),
            start_time: 0,
            end_time: (w.samples().len() / 160) as i64,
            speaker_turn_next: false,
        }];
        let units = manager.process_samples(Ok(spans));
        let report = w.finish_cycle(Some(units), second * 1000, &settings);
        if let Some(recognized) = report.recognized {
            let last = segments.len() - 1;
            segments[last] = recognized;
        }
        if let Some(opened) = report.opened {
            opened_at.push(second);
            segments.push(opened);
        }
    }
    assert_eq!(segments.len(), 2);
    assert_eq!(opened_at, vec![16]);
    assert_eq!(segments[0].index, 0);
    assert_eq!(segments[1].index, 1);
    assert_ne!(segments[0].id, segments[1].id);
    assert_eq!(segments[0].items.len(), 1);
    assert_eq!(segments[0].items[0].text, format!("{} samples", 16 * 16000));
    assert_eq!(segments[1].items.len(), 1);
    assert_eq!(segments[1].items[0].text, format!("{} samples", 4 * 16000));
    assert_eq!(w.samples().len(), 4 * 16000);
    assert_eq!(w.current().index, 1);
    assert_eq!(segments[1].items[0].index, 19);
}

#[test]
fn failed_cycle_keeps_the_audio_for_the_next() {
    let settings = WindowSettings::default();
    let mut manager = WhisperManager::new(Ok(())).unwrap();
    let mut w = SegmentWindow::new("s".to_string(), 0);
    let mut first = ramp(5000, 0);
    assert!(w.ingest(&mut first, &settings));
    let input_n = w.samples().clone();
    let failed = manager.process_samples(Err("boom".to_string()));
    assert_eq!(failed, Err(RecognitionError::Transient("boom".to_string())));
    let report = w.finish_cycle(Some(failed), 20_000, &settings);
    assert_eq!(report.recognized, None);
    assert_eq!(report.opened, None);
    assert_eq!(w.samples(), &input_n);
    assert_eq!(w.current().index, 0);
    assert_eq!(w.started_ms(), 0);
    let mut second = ramp(3000, 5000);
    assert!(w.ingest(&mut second, &settings));
    let mut expected = ramp(5000, 0);
    expected.extend(ramp(3000, 5000));
    assert_eq!(w.samples(), &expected);
}
