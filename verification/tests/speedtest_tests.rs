use rustyping::speedtest::{
    throughput_bps, DownloadMeter, SpeedTest, SpeedTestEvent, SpeedTestState, SpeedTestTask,
};

fn running_test() -> SpeedTest {
    let mut st = SpeedTest::new(String::from("example.org"));
    let (complete, tasks) = st.update(Vec::new());
    assert!(!complete);
    assert_eq!(tasks, vec![SpeedTestTask::Download]);
    st
}

#[test]
fn test_speed_test_state_transitions() {
    let state = SpeedTestState::Preparing;
    assert!(matches!(state, SpeedTestState::Preparing));
}

#[test]
fn test_first_update_starts_download() {
    let mut st = SpeedTest::new(String::from("example.org"));
    assert!(matches!(st.get_state(), SpeedTestState::Preparing));
    assert!(!st.is_complete());
    let (complete, tasks) = st.update(Vec::new());
    assert!(!complete);
    assert_eq!(tasks, vec![SpeedTestTask::Download]);
    match st.get_state() {
        SpeedTestState::Downloading { bytes_received, samples } => {
            assert_eq!(*bytes_received, 0);
            assert!(samples.is_empty());
        }
        other => panic!("expected Downloading, found {other:?}"),
    }
}

#[test]
fn test_download_progress_accumulates() {
    let mut st = running_test();
    let (complete, tasks) = st.update(vec![
        SpeedTestEvent::DownloadProgress { bytes: 1_000, bps: 80_000 },
        SpeedTestEvent::DownloadProgress { bytes: 3_000, bps: 120_000 },
    ]);
    assert!(!complete);
    assert!(tasks.is_empty());
    match st.get_state() {
        SpeedTestState::Downloading { bytes_received, samples } => {
            assert_eq!(*bytes_received, 3_000);
            assert_eq!(samples, &vec![80_000, 120_000]);
        }
        other => panic!("expected Downloading, found {other:?}"),
    }
}

#[test]
fn test_download_complete_carries_figures_unchanged() {
    let mut st = running_test();
    let (complete, tasks) = st.update(vec![SpeedTestEvent::DownloadComplete {
        bps: 100_000_000,
        avg_bps: 90_000_000,
        peak_bps: 120_000_000,
    }]);
    assert!(!complete);
    assert_eq!(tasks, vec![SpeedTestTask::Upload]);
    match st.get_state() {
        SpeedTestState::Uploading { bytes_sent, download_results } => {
            assert_eq!(*bytes_sent, 0);
            assert_eq!(*download_results, (100_000_000, 90_000_000, 120_000_000));
        }
        other => panic!("expected Uploading, found {other:?}"),
    }
}

#[test]
fn test_upload_complete_merges_figures() {
    let mut st = running_test();
    st.update(vec![SpeedTestEvent::DownloadComplete {
        bps: 100_000_000,
        avg_bps: 90_000_000,
        peak_bps: 120_000_000,
    }]);
    let (complete, tasks) = st.update(vec![
        SpeedTestEvent::UploadProgress { bytes: 5_000_000 },
        SpeedTestEvent::UploadComplete { bps: 55_000_000, duration_us: 2_000_000 },
    ]);
    assert!(complete);
    assert!(tasks.is_empty());
    assert!(st.is_complete());
    match st.get_state() {
        SpeedTestState::Complete {
            download_bps,
            upload_bps,
            total_bytes,
            duration_us,
            avg_bps,
            peak_bps,
        } => {
            assert_eq!(*download_bps, 100_000_000);
            assert_eq!(*upload_bps, 55_000_000);
            assert_eq!(*total_bytes, 0);
            assert_eq!(*duration_us, 2_000_000);
            assert_eq!(*avg_bps, 90_000_000);
            assert_eq!(*peak_bps, 120_000_000);
        }
        other => panic!("expected Complete, found {other:?}"),
    }
}

#[test]
fn test_error_is_terminal_and_updates_become_noops() {
    let mut st = running_test();
    let (complete, tasks) = st.update(vec![SpeedTestEvent::Error(String::from(
        "HTTP error: 503",
    ))]);
    assert!(complete);
    assert!(tasks.is_empty());
    assert!(st.is_complete());
    assert!(matches!(st.get_state(), SpeedTestState::Error(msg) if msg == "HTTP error: 503"));
    // Later events change nothing and the call keeps reporting done.
    let (again, tasks2) = st.update(vec![SpeedTestEvent::DownloadComplete {
        bps: 1,
        avg_bps: 1,
        peak_bps: 1,
    }]);
    assert!(again);
    assert!(tasks2.is_empty());
    assert!(matches!(st.get_state(), SpeedTestState::Error(msg) if msg == "HTTP error: 503"));
}

#[test]
fn test_events_behind_terminal_transition_are_dropped() {
    let mut st = running_test();
    let (complete, tasks) = st.update(vec![
        SpeedTestEvent::Error(String::from("Read error: reset")),
        SpeedTestEvent::DownloadComplete { bps: 9, avg_bps: 9, peak_bps: 9 },
    ]);
    assert!(complete);
    // The completion behind the error was discarded: no upload starts.
    assert!(tasks.is_empty());
    assert!(matches!(st.get_state(), SpeedTestState::Error(_)));
}

#[test]
fn test_upload_events_ignored_while_downloading() {
    let mut st = running_test();
    let (complete, _) = st.update(vec![SpeedTestEvent::UploadComplete {
        bps: 1,
        duration_us: 1,
    }]);
    assert!(!complete);
    assert!(matches!(st.get_state(), SpeedTestState::Downloading { .. }));
}

#[test]
fn test_throughput_formula() {
    // One megabyte in one second is eight megabits per second.
    assert_eq!(throughput_bps(1_000_000, 1_000_000), 8_000_000);
    // Twenty-five megabytes in two seconds is one hundred megabits per second.
    assert_eq!(throughput_bps(25_000_000, 2_000_000), 100_000_000);
    // Sub-second transfers extrapolate.
    assert_eq!(throughput_bps(1_250, 100_000), 100_000);
}

#[test]
fn test_download_meter_throttles_and_tracks_peak() {
    let mut meter = DownloadMeter::new();
    // Only 50 ms in: counted, not reported.
    assert_eq!(meter.on_chunk(1_000, 50_000), None);
    assert_eq!(meter.total_bytes, 1_000);
    // 150 ms in: reported, peak raised.
    let e = meter.on_chunk(1_000, 150_000);
    let expected_bps = 2_000 * 8_000_000 / 150_000;
    assert_eq!(
        e,
        Some(SpeedTestEvent::DownloadProgress { bytes: 2_000, bps: expected_bps })
    );
    assert_eq!(meter.peak_bps, expected_bps);
    // 200 ms in: only 50 ms since the last report, silent again.
    assert_eq!(meter.on_chunk(4_000, 200_000), None);
    assert_eq!(meter.total_bytes, 6_000);
    // The completion event averages over the whole run.
    let done = meter.finish(1_000_000);
    assert_eq!(
        done,
        SpeedTestEvent::DownloadComplete {
            bps: 48_000,
            avg_bps: 48_000,
            peak_bps: expected_bps,
        }
    );
}

#[test]
fn test_download_meter_zero_elapsed_reports_zero_average() {
    let meter = DownloadMeter::new();
    assert_eq!(
        meter.finish(0),
        SpeedTestEvent::DownloadComplete { bps: 0, avg_bps: 0, peak_bps: 0 }
    );
}
