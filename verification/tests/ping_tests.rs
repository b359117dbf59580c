use rustyping::ping::{ConnectOutcome, IpAddress, PingMonitor, PingResult, WebCheckStatus};
use rustyping::ping::web_check_status;
use rustyping::stats::NetworkStats;

fn monitor() -> PingMonitor {
    PingMonitor::new(IpAddress::V4(0x08080808), 200)
}

#[test]
fn test_counters_balance() {
    let mut m = monitor();
    m.process_result(PingResult::Success(20_000));
    m.process_result(PingResult::Timeout);
    m.process_result(PingResult::Success(25_000));
    m.process_result(PingResult::WebCheck { port: 80, status: WebCheckStatus::Timeout });
    m.process_result(PingResult::Timeout);
    assert_eq!(m.total_pings, 4);
    assert_eq!(m.successful_pings, 2);
    assert_eq!(m.failed_pings, 2);
    assert_eq!(m.total_pings, m.successful_pings + m.failed_pings);
}

#[test]
fn test_uptime_and_loss_sum_to_whole() {
    let mut m = monitor();
    m.process_result(PingResult::Success(10_000));
    m.process_result(PingResult::Timeout);
    m.process_result(PingResult::Timeout);
    let s = m.stats();
    assert_eq!(s.uptime_pct, 3333);
    assert_eq!(s.packet_loss_pct, 6667);
    assert_eq!(s.uptime_pct + s.packet_loss_pct, 10_000);
}

#[test]
fn test_no_data_percentages_are_zero() {
    let m = monitor();
    let s = m.stats();
    assert_eq!(s.uptime_pct, 0);
    assert_eq!(s.packet_loss_pct, 0);
    assert_eq!(s.total_pings, 0);
}

#[test]
fn test_history_never_exceeds_window() {
    let mut m = PingMonitor::new(IpAddress::V4(1), 30);
    for i in 0..35u32 {
        m.process_result(PingResult::Success(1_000 + i));
    }
    assert_eq!(m.latency_data().len(), 30);
    // The oldest five samples were evicted.
    assert_eq!(*m.latency_data().front().unwrap(), Some(1_005));
    assert_eq!(*m.latency_data().back().unwrap(), Some(1_034));
}

#[test]
fn test_set_max_history_truncates_to_most_recent() {
    let mut m = PingMonitor::new(IpAddress::V4(1), 100);
    for i in 0..40u32 {
        m.process_result(PingResult::Success(2_000 + i));
    }
    m.set_max_history(30);
    assert_eq!(m.latency_data().len(), 30);
    // The ten oldest entries are gone; the retained ones are the newest.
    assert_eq!(*m.latency_data().front().unwrap(), Some(2_010));
    assert_eq!(*m.latency_data().back().unwrap(), Some(2_039));
    // Growing the window changes nothing immediately.
    m.set_max_history(600);
    assert_eq!(m.latency_data().len(), 30);
}

#[test]
fn test_reset_clears_data_but_not_identity() {
    let mut m = monitor();
    m.dns_duration = Some(12_345);
    for _ in 0..5 {
        m.process_result(PingResult::Success(40_000));
    }
    m.process_result(PingResult::Timeout);
    m.reset();
    assert_eq!(m.total_pings, 0);
    assert_eq!(m.successful_pings, 0);
    assert_eq!(m.failed_pings, 0);
    assert_eq!(m.latency_data().len(), 0);
    let s = m.stats();
    assert_eq!(s.total_pings, 0);
    // With no data the short-window average is zero, so the label is
    // the lowest-latency one.
    assert_eq!(s.quality, "EXCELLENT");
    assert_eq!(s.dns_duration, Some(12_345));
}

#[test]
fn test_quality_offline_beats_good_average() {
    let mut m = monitor();
    for _ in 0..5 {
        m.process_result(PingResult::Success(20_000));
    }
    m.process_result(PingResult::Timeout);
    let s = m.stats();
    // The recent average is still excellent, but the last sample decides.
    assert!(s.current_avg < 30_000);
    assert_eq!(s.quality, "OFFLINE");
    assert_eq!(s.current_response, None);
    // One success later the label flips back.
    m.process_result(PingResult::Success(20_000));
    assert_eq!(m.stats().quality, "EXCELLENT");
}

#[test]
fn test_quality_thresholds() {
    for (us, label) in [
        (29_999u32, "EXCELLENT"),
        (30_000, "GOOD"),
        (99_999, "GOOD"),
        (100_000, "FAIR"),
        (199_999, "FAIR"),
        (200_000, "POOR"),
    ] {
        let mut m = monitor();
        m.process_result(PingResult::Success(us));
        assert_eq!(m.stats().quality, label, "for {us} microseconds");
        assert_eq!(m.quality(), label);
    }
}

#[test]
fn test_jitter_population_stddev() {
    let mut m = monitor();
    m.process_result(PingResult::Success(10_000));
    m.process_result(PingResult::Success(20_000));
    m.process_result(PingResult::Success(30_000));
    let s = m.stats();
    assert_eq!(s.avg_response, 20_000);
    assert_eq!(s.current_avg, 20_000);
    assert_eq!(s.min_response, 10_000);
    assert_eq!(s.max_response, 30_000);
    assert_eq!(s.current_response, Some(30_000));
    // Population stddev of 10, 20, 30 ms is 8.165 ms; in whole
    // microseconds the floor is 8164.
    assert_eq!(s.jitter, 8_164);
}

#[test]
fn test_jitter_zero_for_one_sample() {
    let mut m = monitor();
    let s0 = m.stats();
    assert_eq!(s0.jitter, 0);
    m.process_result(PingResult::Success(77_000));
    let s1 = m.stats();
    assert_eq!(s1.jitter, 0);
    m.process_result(PingResult::Timeout);
    assert_eq!(m.stats().jitter, 0);
}

#[test]
fn test_stability_from_jitter_ratio() {
    let mut m = monitor();
    m.process_result(PingResult::Success(10_000));
    m.process_result(PingResult::Success(30_000));
    let s = m.stats();
    // avg 20 ms, deviations 10 ms each: jitter 10 ms, ratio 50%.
    assert_eq!(s.avg_response, 20_000);
    assert_eq!(s.jitter, 10_000);
    assert_eq!(s.stability, 50);
    // With no successful samples the score is the calm default.
    let fresh = monitor();
    assert_eq!(fresh.stats().stability, 100);
}

#[test]
fn test_recent_window_holds_ten_successes() {
    let mut m = monitor();
    // Two old outliers, then ten calm samples: the short-window average
    // only sees the last ten.
    m.process_result(PingResult::Success(900_000));
    m.process_result(PingResult::Success(900_000));
    for _ in 0..10 {
        m.process_result(PingResult::Success(10_000));
    }
    let s = m.stats();
    assert_eq!(s.current_avg, 10_000);
    // The all-time average still includes the outliers.
    assert_eq!(s.avg_response, (2 * 900_000 + 10 * 10_000) / 12);
}

#[test]
fn test_webcheck_updates_only_port_status() {
    let mut m = monitor();
    m.process_result(PingResult::Success(5_000));
    m.process_result(PingResult::WebCheck {
        port: 80,
        status: WebCheckStatus::Success(1_500),
    });
    m.process_result(PingResult::WebCheck {
        port: 443,
        status: WebCheckStatus::ConnectionRefused,
    });
    // A probe against a port outside the pair is ignored.
    m.process_result(PingResult::WebCheck { port: 8080, status: WebCheckStatus::Timeout });
    assert_eq!(m.total_pings, 1);
    assert_eq!(m.tcp_80, WebCheckStatus::Success(1_500));
    assert_eq!(m.tcp_443, WebCheckStatus::ConnectionRefused);
    let s = m.stats();
    assert_eq!(s.tcp_port_80, WebCheckStatus::Success(1_500));
    assert_eq!(s.tcp_port_443, WebCheckStatus::ConnectionRefused);
    // The most recent result overwrites the previous one.
    m.process_result(PingResult::WebCheck { port: 80, status: WebCheckStatus::Timeout });
    assert_eq!(m.tcp_80, WebCheckStatus::Timeout);
}

#[test]
fn test_web_check_status_classification() {
    assert_eq!(
        web_check_status(ConnectOutcome::Connected(2_100)),
        WebCheckStatus::Success(2_100)
    );
    assert_eq!(
        web_check_status(ConnectOutcome::Refused),
        WebCheckStatus::ConnectionRefused
    );
    assert_eq!(web_check_status(ConnectOutcome::TimedOut), WebCheckStatus::Timeout);
    assert_eq!(
        web_check_status(ConnectOutcome::Failed(String::from("host unreachable"))),
        WebCheckStatus::Error(String::from("host unreachable"))
    );
}

#[test]
fn test_stats_default_is_no_data() {
    let s = NetworkStats::default();
    assert_eq!(s.quality, "UNKNOWN");
    assert_eq!(s.stability, 100);
    assert_eq!(s.total_pings, 0);
    assert_eq!(s.current_response, None);
    assert_eq!(s.tcp_port_80, WebCheckStatus::Untested);
}

#[test]
fn test_target_addr_is_kept() {
    let m = PingMonitor::new(IpAddress::V6(1), 30);
    assert_eq!(m.get_target_addr(), IpAddress::V6(1));
}
