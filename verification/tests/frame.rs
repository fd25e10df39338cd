use radiors::control::TuningState;
use radiors::frame::Bin;
use radiors::frame::FFTApp;
use radiors::frame::LatestFrame;
use radiors::frame::SpectrumFrame;
use radiors::frame::DB_FLOOR_MILLI;

fn frame_with(magnitudes: &[i32]) -> SpectrumFrame {
    SpectrumFrame::assemble(magnitudes)
}

#[test]
fn assemble_numbers_the_bins() {
    let frame = frame_with(&[-30_000, -45_500, -139_999]);
    assert_eq!(
        frame.bins,
        vec![
            Bin { index: 0, magnitude: -30_000 },
            Bin { index: 1, magnitude: -45_500 },
            Bin { index: 2, magnitude: -139_999 },
        ]
    );
}

#[test]
fn assemble_applies_the_floor() {
    assert_eq!(DB_FLOOR_MILLI, -140_000);
    let frame = frame_with(&[i32::MIN, -140_001, -140_000, 0, i32::MAX]);
    let magnitudes: Vec<i32> = frame.bins.iter().map(|b| b.magnitude).collect();
    assert_eq!(magnitudes, vec![-140_000, -140_000, -140_000, 0, i32::MAX]);
}

#[test]
fn silence_sits_at_the_floor() {
    let frame = frame_with(&vec![i32::MIN; 64]);
    assert_eq!(frame.bins.len(), 64);
    assert!(frame.bins.iter().all(|b| b.magnitude == DB_FLOOR_MILLI));
}

#[test]
fn empty_frames() {
    assert_eq!(frame_with(&[]), SpectrumFrame::empty());
    assert_eq!(SpectrumFrame::empty().bins.len(), 0);
    assert_eq!(SpectrumFrame::empty().magnitude_range(), None);
}

#[test]
fn magnitude_range_finds_both_ends() {
    assert_eq!(frame_with(&[-50_000]).magnitude_range(), Some((-50_000, -50_000)));
    assert_eq!(
        frame_with(&[-50_000, -20_000, -90_000, -20_000]).magnitude_range(),
        Some((-90_000, -20_000))
    );
    assert_eq!(frame_with(&[-200_000, -1]).magnitude_range(), Some((-140_000, -1)));
}

#[test]
fn take_without_a_frame_finds_nothing() {
    let mut latest = LatestFrame::new();
    assert_eq!(latest.try_take_latest(), None);
    assert_eq!(latest.try_take_latest(), None);
}

#[test]
fn a_frame_is_taken_once() {
    let mut latest = LatestFrame::new();
    latest.publish(frame_with(&[-1, -2]));
    assert_eq!(latest.try_take_latest(), Some(frame_with(&[-1, -2])));
    assert_eq!(latest.try_take_latest(), None);
    latest.publish(frame_with(&[-3]));
    assert_eq!(latest.try_take_latest(), Some(frame_with(&[-3])));
    assert_eq!(latest.try_take_latest(), None);
}

#[test]
fn the_latest_frame_overwrites() {
    let mut latest = LatestFrame::new();
    latest.publish(frame_with(&[-1]));
    latest.publish(frame_with(&[-2]));
    latest.publish(frame_with(&[-3]));
    assert_eq!(latest.try_take_latest(), Some(frame_with(&[-3])));
    assert_eq!(latest.try_take_latest(), None);
}

#[test]
fn presentation_starts_empty() {
    let tuning = TuningState { center_frequency: 1000, sample_rate: 2, bandwidth: 3 };
    let app = FFTApp::new(tuning);
    assert_eq!(app.tuning, tuning);
    assert_eq!(app.data, SpectrumFrame::empty());
    assert_eq!((app.x_min, app.x_max), (1000, 2_401_000));
    assert_eq!((app.y_min, app.y_max), (None, None));
    assert_eq!(app.in_count, 0);
}

#[test]
fn presentation_updates_on_a_new_frame() {
    let tuning = TuningState { center_frequency: 1000, sample_rate: 2, bandwidth: 3 };
    let mut app = FFTApp::new(tuning);
    let mut latest = LatestFrame::new();
    assert!(!app.update(&mut latest));
    assert_eq!(app.in_count, 0);
    latest.publish(frame_with(&[-60_000, -30_000, -80_000]));
    assert!(app.update(&mut latest));
    assert_eq!(app.in_count, 1);
    assert_eq!(app.data, frame_with(&[-60_000, -30_000, -80_000]));
    assert_eq!((app.y_min, app.y_max), (Some(-80_000), Some(-30_000)));
    assert!(!app.update(&mut latest));
    assert_eq!(app.in_count, 1);
    assert_eq!(app.data, frame_with(&[-60_000, -30_000, -80_000]));
    assert_eq!((app.y_min, app.y_max), (Some(-80_000), Some(-30_000)));
}

#[test]
fn presentation_follows_the_tuning() {
    let tuning = TuningState { center_frequency: 1000, sample_rate: 2, bandwidth: 3 };
    let mut app = FFTApp::new(tuning);
    let mut latest = LatestFrame::new();
    app.tuning.center_frequency = 12345;
    app.update(&mut latest);
    assert_eq!((app.x_min, app.x_max), (12345, 2_412_345));
}

#[test]
fn presentation_count_stops_at_the_top() {
    let tuning = TuningState { center_frequency: 1, sample_rate: 2, bandwidth: 3 };
    let mut app = FFTApp::new(tuning);
    app.in_count = u64::MAX;
    let mut latest = LatestFrame::new();
    latest.publish(frame_with(&[-1]));
    assert!(app.update(&mut latest));
    assert_eq!(app.in_count, u64::MAX);
}
