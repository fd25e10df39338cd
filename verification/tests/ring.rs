use radiors::codec::IqSample;
use radiors::control::DEFAULT_N_SAMPLES;
use radiors::frame::Bin;
use radiors::ring::offer_chunk;
use radiors::ring::stream_buffer;
use radiors::ring::FFTWorker;
use radiors::ring::WindowPoll;
use radiors::ring::WorkerStats;

fn samples_of(poll: WindowPoll) -> Vec<IqSample> {
    match poll {
        WindowPoll::Ready(samples) => samples,
        other => panic!("no window: {:?}", other),
    }
}

#[test]
fn no_ring_for_an_empty_window() {
    assert!(stream_buffer(0).is_none());
    assert!(stream_buffer(usize::MAX).is_none());
    assert!(stream_buffer(usize::MAX / 4 + 1).is_none());
    assert!(stream_buffer(4).is_some());
}

#[test]
fn default_worker() {
    let (_writer, reader) = stream_buffer(DEFAULT_N_SAMPLES as usize).unwrap();
    let worker = FFTWorker::new(reader);
    assert_eq!(worker.window, 32768);
    assert_eq!(worker.count, 0);
    assert_eq!(worker.patience, 5000);
    assert_eq!(worker.idle, 0);
}

#[test]
fn window_passes_through_the_ring() {
    let (mut writer, reader) = stream_buffer(4).unwrap();
    let mut stats = WorkerStats::new();
    let mut worker = FFTWorker { input_queue: reader, window: 4, count: 0, patience: 3, idle: 0 };
    assert!(matches!(worker.next_window(false), WindowPoll::Pending));
    assert!(offer_chunk(&mut writer, &mut stats, &[0, 255, 127, 128]));
    let samples = samples_of(worker.next_window(false));
    assert_eq!(samples, vec![IqSample { re: -255, im: 255 }, IqSample { re: -1, im: 1 }]);
    let again = samples_of(worker.next_window(false));
    assert_eq!(again, samples);
    let frame = worker.compute_fft(&[-30_000, -200_000]).unwrap();
    assert_eq!(
        frame.bins,
        vec![Bin { index: 0, magnitude: -30_000 }, Bin { index: 1, magnitude: -140_000 }]
    );
    assert_eq!(worker.count, 2);
    assert!(matches!(worker.next_window(false), WindowPoll::Pending));
    assert_eq!(stats, WorkerStats { count_in: 1, count_out: 1, dropped: 0, bytes_out: 4 });
}

#[test]
fn window_waits_for_a_full_window() {
    let (mut writer, reader) = stream_buffer(4).unwrap();
    let mut stats = WorkerStats::new();
    let mut worker = FFTWorker { input_queue: reader, window: 4, count: 0, patience: 3, idle: 0 };
    assert!(offer_chunk(&mut writer, &mut stats, &[1, 2]));
    assert!(matches!(worker.next_window(false), WindowPoll::Pending));
    assert!(worker.compute_fft(&[0, 0]).is_none());
    assert_eq!(worker.count, 0);
    assert!(offer_chunk(&mut writer, &mut stats, &[3, 4]));
    let samples = samples_of(worker.next_window(false));
    assert_eq!(samples, vec![IqSample { re: -253, im: -251 }, IqSample { re: -249, im: -247 }]);
}

#[test]
fn closed_and_short_of_a_window_ends() {
    let (mut writer, reader) = stream_buffer(4).unwrap();
    let mut stats = WorkerStats::new();
    let mut worker = FFTWorker { input_queue: reader, window: 4, count: 0, patience: 3, idle: 0 };
    assert!(matches!(worker.next_window(true), WindowPoll::Closed));
    assert!(offer_chunk(&mut writer, &mut stats, &[1, 2]));
    assert!(matches!(worker.next_window(true), WindowPoll::Closed));
    assert!(matches!(worker.next_window(false), WindowPoll::Pending));
    assert!(offer_chunk(&mut writer, &mut stats, &[3, 4]));
    assert!(matches!(worker.next_window(true), WindowPoll::Ready(_)));
}

#[test]
fn waiting_is_bounded() {
    let (mut writer, reader) = stream_buffer(4).unwrap();
    let mut stats = WorkerStats::new();
    let mut worker = FFTWorker { input_queue: reader, window: 4, count: 0, patience: 3, idle: 0 };
    assert!(matches!(worker.next_window(false), WindowPoll::Pending));
    assert!(matches!(worker.next_window(false), WindowPoll::Pending));
    assert!(matches!(worker.next_window(false), WindowPoll::Pending));
    assert_eq!(worker.idle, 3);
    assert!(matches!(worker.next_window(false), WindowPoll::TimedOut));
    assert!(matches!(worker.next_window(false), WindowPoll::TimedOut));
    assert_eq!(worker.idle, 3);
    assert!(matches!(worker.next_window(true), WindowPoll::Closed));
    assert!(offer_chunk(&mut writer, &mut stats, &[1, 2, 3, 4]));
    assert!(matches!(worker.next_window(false), WindowPoll::Ready(_)));
    assert_eq!(worker.idle, 0);
    assert!(worker.compute_fft(&[0, 0]).is_some());
    assert!(matches!(worker.next_window(false), WindowPoll::Pending));
    assert_eq!(worker.idle, 1);
}

#[test]
fn chunks_without_room_are_dropped_and_counted() {
    let (mut writer, reader) = stream_buffer(4).unwrap();
    let mut stats = WorkerStats::new();
    let mut worker = FFTWorker { input_queue: reader, window: 4, count: 0, patience: 3, idle: 0 };
    assert!(!offer_chunk(&mut writer, &mut stats, &[0; 9]));
    assert!(!offer_chunk(&mut writer, &mut stats, &[]));
    assert_eq!(stats, WorkerStats { count_in: 2, count_out: 0, dropped: 2, bytes_out: 0 });
    assert!(offer_chunk(&mut writer, &mut stats, &[1, 1, 1, 1]));
    assert!(offer_chunk(&mut writer, &mut stats, &[2, 2, 2, 2]));
    assert!(!offer_chunk(&mut writer, &mut stats, &[3, 3, 3, 3]));
    assert_eq!(stats, WorkerStats { count_in: 5, count_out: 2, dropped: 3, bytes_out: 8 });
    assert_eq!(samples_of(worker.next_window(false))[0], IqSample { re: -253, im: -253 });
    assert!(worker.compute_fft(&[0, 0]).is_some());
    assert_eq!(samples_of(worker.next_window(false))[0], IqSample { re: -251, im: -251 });
}

#[test]
fn ring_keeps_the_order_across_the_wrap() {
    let (mut writer, reader) = stream_buffer(4).unwrap();
    let mut stats = WorkerStats::new();
    let mut worker = FFTWorker { input_queue: reader, window: 4, count: 0, patience: 3, idle: 0 };
    let mut next_in: u8 = 0;
    let mut next_out: u8 = 0;
    let mut frames: u64 = 0;
    for _ in 0..200 {
        let chunk = [next_in, next_in, next_in, next_in];
        if offer_chunk(&mut writer, &mut stats, &chunk) {
            next_in += 1;
        }
        if let WindowPoll::Ready(samples) = worker.next_window(false) {
            let expected = 2 * i16::from(next_out) - 255;
            assert_eq!(samples, vec![IqSample { re: expected, im: expected }; 2]);
            assert!(worker.compute_fft(&[-1, -2]).is_some());
            next_out += 1;
            frames += 1;
        }
        assert!(next_out <= next_in);
    }
    assert!(frames > 50);
    assert_eq!(worker.count, 2 * frames);
    assert_eq!(stats.count_out, u64::from(next_in));
    assert_eq!(stats.count_in, 200);
    assert_eq!(stats.count_out + stats.dropped, 200);
}

#[test]
fn counters_stop_at_the_top() {
    let mut stats = WorkerStats { count_in: u64::MAX, count_out: u64::MAX - 1, dropped: u64::MAX, bytes_out: u64::MAX - 3 };
    stats.record_offer(true, 10);
    assert_eq!(stats, WorkerStats { count_in: u64::MAX, count_out: u64::MAX, dropped: u64::MAX, bytes_out: u64::MAX });
    stats.record_offer(false, 10);
    assert_eq!(stats, WorkerStats { count_in: u64::MAX, count_out: u64::MAX, dropped: u64::MAX, bytes_out: u64::MAX });
    let mut fresh = WorkerStats::new();
    fresh.record_offer(false, 7);
    fresh.record_offer(true, 7);
    assert_eq!(fresh, WorkerStats { count_in: 2, count_out: 1, dropped: 1, bytes_out: 7 });
}
