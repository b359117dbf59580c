use rustyping::app::{App, AppTab};
use rustyping::config::Config;
use rustyping::ping::{IpAddress, PingCommand, PingResult};
use rustyping::theme::{LatencyBand, Theme};

fn app() -> App {
    App::new(
        String::from("8.8.8.8"),
        IpAddress::V4(0x08080808),
        Some(15_000),
        Config::default(),
    )
}

#[test]
fn test_new_app_reflects_config() {
    let a = app();
    assert_eq!(a.current_tab, AppTab::Monitor);
    assert!(!a.show_settings);
    assert!(!a.show_diagnostics);
    assert!(a.show_jitter);
    assert!(a.show_history);
    assert!(!a.enable_web_check);
    assert!(a.speedtest.is_none());
    assert!(a.portscan.is_none());
    assert_eq!(a.ping_monitor.dns_duration, Some(15_000));
    assert_eq!(a.ping_monitor.max_history, 200);
}

#[test]
fn test_overlays_are_exclusive() {
    let mut a = app();
    a.toggle_settings();
    assert!(a.show_settings);
    a.toggle_diagnostics();
    assert!(a.show_diagnostics && !a.show_settings);
    a.toggle_settings();
    assert!(a.show_settings && !a.show_diagnostics);
    a.toggle_settings();
    assert!(!a.show_settings && !a.show_diagnostics);
}

#[test]
fn test_panel_toggles() {
    let mut a = app();
    a.toggle_jitter_panel();
    assert!(!a.show_jitter);
    a.toggle_history_panel();
    assert!(!a.show_history);
    a.toggle_jitter_panel();
    assert!(a.show_jitter);
}

#[test]
fn test_history_window_steps_and_clamps() {
    let mut a = app();
    a.increase_history();
    assert_eq!(a.config.graph_history_length, 210);
    assert_eq!(a.ping_monitor.max_history, 210);
    a.decrease_history();
    a.decrease_history();
    assert_eq!(a.config.graph_history_length, 190);
    // Walk to the floor: below 30 nothing moves.
    for _ in 0..30 {
        a.decrease_history();
    }
    assert_eq!(a.config.graph_history_length, 30);
    a.decrease_history();
    assert_eq!(a.config.graph_history_length, 30);
    // Walk to the ceiling: above 600 nothing moves.
    for _ in 0..80 {
        a.increase_history();
    }
    assert_eq!(a.config.graph_history_length, 600);
    a.increase_history();
    assert_eq!(a.config.graph_history_length, 600);
    assert_eq!(a.ping_monitor.max_history, 600);
}

#[test]
fn test_interval_steps_and_clamps() {
    let mut a = app();
    let cmd = a.increase_speed();
    assert_eq!(a.config.ping_interval_ms, 450);
    assert!(matches!(cmd, Some(PingCommand::SetInterval(450))));
    let cmd = a.decrease_speed();
    assert_eq!(a.config.ping_interval_ms, 500);
    assert!(matches!(cmd, Some(PingCommand::SetInterval(500))));
    // Floor at 50 ms.
    for _ in 0..9 {
        a.increase_speed();
    }
    assert_eq!(a.config.ping_interval_ms, 50);
    assert!(a.increase_speed().is_none());
    assert_eq!(a.config.ping_interval_ms, 50);
    // Ceiling at 5000 ms.
    for _ in 0..99 {
        a.decrease_speed();
    }
    assert_eq!(a.config.ping_interval_ms, 5000);
    assert!(a.decrease_speed().is_none());
    assert_eq!(a.config.ping_interval_ms, 5000);
}

#[test]
fn test_toggle_web_check_returns_command() {
    let mut a = app();
    let cmd = a.toggle_web_check();
    assert!(a.enable_web_check);
    assert!(matches!(cmd, PingCommand::ToggleWebCheck(true)));
    let cmd = a.toggle_web_check();
    assert!(!a.enable_web_check);
    assert!(matches!(cmd, PingCommand::ToggleWebCheck(false)));
}

#[test]
fn test_reset_stats_clears_monitor() {
    let mut a = app();
    a.ping_monitor.process_result(PingResult::Success(10_000));
    a.ping_monitor.process_result(PingResult::Timeout);
    a.reset_stats();
    assert_eq!(a.ping_monitor.total_pings, 0);
    assert_eq!(a.ping_monitor.latency_data().len(), 0);
    assert_eq!(a.ping_monitor.dns_duration, Some(15_000));
}

#[test]
fn test_diagnostics_start_once() {
    let mut a = app();
    a.start_speedtest();
    assert!(a.speedtest.is_some());
    a.start_portscan();
    assert!(a.portscan.is_some());
    // Starting again keeps the running instances.
    let before = a.portscan.as_ref().unwrap().progress();
    a.start_speedtest();
    a.start_portscan();
    assert_eq!(a.portscan.as_ref().unwrap().progress(), before);
}

#[test]
fn test_settings_navigation_bounds() {
    let mut a = app();
    // Closed overlay: the cursor does not move.
    a.settings_navigate_down();
    assert_eq!(a.settings_selected, 0);
    a.toggle_settings();
    a.settings_navigate_up();
    assert_eq!(a.settings_selected, 0);
    for _ in 0..10 {
        a.settings_navigate_down();
    }
    assert_eq!(a.settings_selected, 5);
    a.settings_navigate_up();
    assert_eq!(a.settings_selected, 4);
}

#[test]
fn test_settings_toggle_selected_rows() {
    let mut a = app();
    // Closed overlay: nothing happens.
    a.settings_toggle_selected();
    assert!(a.show_jitter);
    a.toggle_settings();
    a.settings_toggle_selected();
    assert!(!a.show_jitter);
    a.settings_navigate_down();
    a.settings_toggle_selected();
    assert!(!a.show_history);
    a.settings_navigate_down();
    a.settings_toggle_selected();
    assert!(!a.config.pause_ping_during_speedtest);
    // Rows past the toggles do nothing.
    a.settings_navigate_down();
    a.settings_toggle_selected();
    assert!(!a.show_jitter && !a.show_history);
}

#[test]
fn test_theme_monotone_flag() {
    let mut t = Theme::new(false);
    assert!(!t.is_monotone());
    t.set_monotone(true);
    assert!(t.is_monotone());
    t.set_monotone(false);
    assert!(!t.is_monotone());
}

#[test]
fn test_theme_latency_bands() {
    // 20 ms is calm, 50 ms is middling, 150 ms is bad.
    assert_eq!(Theme::latency_band(20_000), LatencyBand::Low);
    assert_eq!(Theme::latency_band(50_000), LatencyBand::Medium);
    assert_eq!(Theme::latency_band(150_000), LatencyBand::High);
    // The exact thresholds.
    assert_eq!(Theme::latency_band(29_999), LatencyBand::Low);
    assert_eq!(Theme::latency_band(30_000), LatencyBand::Medium);
    assert_eq!(Theme::latency_band(99_999), LatencyBand::Medium);
    assert_eq!(Theme::latency_band(100_000), LatencyBand::High);
}
