use rustyping::config::Config;
use rustyping::json::{encode_config, parse_config, u64_to_string};
use rustyping::storage::{str_eq, TargetHistory};

#[test]
fn test_config_serialization() {
    let config = Config::default();
    let json = encode_config(&config).unwrap();
    let loaded: Config = parse_config(json.as_str()).unwrap();
    assert_eq!(config.ping_interval_ms, loaded.ping_interval_ms);
}

#[test]
fn test_config_default_values() {
    let c = Config::default();
    assert!(c.pause_ping_during_speedtest);
    assert_eq!(c.graph_history_length, 200);
    assert_eq!(c.ping_interval_ms, 500);
    assert!(c.show_jitter_panel);
    assert!(c.show_history_panel);
    assert_eq!(c.speedtest_provider, "ookla");
}

#[test]
fn test_encode_is_canonical() {
    let json = encode_config(&Config::default()).unwrap();
    assert_eq!(
        json,
        "{\"pause_ping_during_speedtest\":true,\
         \"graph_history_length\":200,\
         \"ping_interval_ms\":500,\
         \"show_jitter_panel\":true,\
         \"show_history_panel\":true,\
         \"speedtest_provider\":\"ookla\"}"
    );
}

#[test]
fn test_round_trip_custom_values() {
    let c = Config {
        pause_ping_during_speedtest: false,
        graph_history_length: 600,
        ping_interval_ms: 50,
        show_jitter_panel: false,
        show_history_panel: true,
        speedtest_provider: String::from("cloudflare"),
    };
    let json = encode_config(&c).unwrap();
    let back = parse_config(json.as_str()).unwrap();
    assert_eq!(back, c);
}

#[test]
fn test_round_trip_extreme_numbers() {
    let c = Config {
        pause_ping_during_speedtest: true,
        graph_history_length: 0,
        ping_interval_ms: u64::MAX,
        show_jitter_panel: true,
        show_history_panel: false,
        speedtest_provider: String::new(),
    };
    let json = encode_config(&c).unwrap();
    let back = parse_config(json.as_str()).unwrap();
    assert_eq!(back, c);
}

#[test]
fn test_u64_rendering() {
    assert_eq!(u64_to_string(0), "0");
    assert_eq!(u64_to_string(42), "42");
    assert_eq!(u64_to_string(500), "500");
    assert_eq!(u64_to_string(u64::MAX), "18446744073709551615");
}

#[test]
fn test_parse_rejects_other_shapes() {
    assert!(parse_config("").is_none());
    assert!(parse_config("{}").is_none());
    assert!(parse_config("not json").is_none());
    // Pretty-printed or reordered documents are not the canonical form.
    assert!(parse_config("{ \"pause_ping_during_speedtest\": true }").is_none());
    let json = encode_config(&Config::default()).unwrap();
    // Trailing bytes are refused.
    let mut trailing = json.clone();
    trailing.push(' ');
    assert!(parse_config(trailing.as_str()).is_none());
    // A truncated document is refused.
    assert!(parse_config(&json[..json.len() - 1]).is_none());
    // An escape in the provider is outside the strict form.
    assert!(parse_config(
        "{\"pause_ping_during_speedtest\":true,\"graph_history_length\":1,\
         \"ping_interval_ms\":1,\"show_jitter_panel\":true,\
         \"show_history_panel\":true,\"speedtest_provider\":\"a\\\"b\"}"
    )
    .is_none());
}

#[test]
fn test_encode_refuses_provider_needing_escapes() {
    let mut c = Config::default();
    c.speedtest_provider = String::from("say \"hi\"");
    assert!(encode_config(&c).is_none());
    c.speedtest_provider = String::from("back\\slash");
    assert!(encode_config(&c).is_none());
}

#[test]
fn test_str_eq() {
    assert!(str_eq("", ""));
    assert!(str_eq("abc", "abc"));
    assert!(!str_eq("abc", "abd"));
    assert!(!str_eq("abc", "abcd"));
}

#[test]
fn test_add_target_new_entry() {
    let mut h = TargetHistory::default();
    assert!(h.is_empty());
    h.add_target("8.8.8.8", 1_000);
    assert!(!h.is_empty());
    assert_eq!(h.entries.len(), 1);
    assert_eq!(h.entries[0].target, "8.8.8.8");
    assert_eq!(h.entries[0].last_used, 1_000);
    assert_eq!(h.entries[0].total_sessions, 1);
    assert_eq!(h.entries[0].avg_latency, None);
}

#[test]
fn test_add_target_bumps_existing() {
    let mut h = TargetHistory::default();
    h.add_target("8.8.8.8", 1_000);
    h.add_target("1.1.1.1", 2_000);
    h.add_target("8.8.8.8", 3_000);
    assert_eq!(h.entries.len(), 2);
    // The refreshed entry moved to the front.
    assert_eq!(h.entries[0].target, "8.8.8.8");
    assert_eq!(h.entries[0].last_used, 3_000);
    assert_eq!(h.entries[0].total_sessions, 2);
    assert_eq!(h.entries[1].target, "1.1.1.1");
}

#[test]
fn test_add_target_orders_most_recent_first() {
    let mut h = TargetHistory::default();
    h.add_target("a.example", 100);
    h.add_target("b.example", 300);
    h.add_target("c.example", 200);
    let stamps: Vec<u64> = h.entries.iter().map(|e| e.last_used).collect();
    assert_eq!(stamps, vec![300, 200, 100]);
}

#[test]
fn test_add_target_ignores_help_flags() {
    let mut h = TargetHistory::default();
    h.add_target("--help", 1);
    h.add_target("-h", 2);
    h.add_target("?", 3);
    assert!(h.is_empty());
}

#[test]
fn test_update_stats_overwrites_figures() {
    let mut h = TargetHistory::default();
    h.add_target("8.8.8.8", 1_000);
    h.update_stats("8.8.8.8", 23_500, 9_950);
    assert_eq!(h.entries[0].avg_latency, Some(23_500));
    assert_eq!(h.entries[0].success_rate, Some(9_950));
    // A miss changes nothing.
    h.update_stats("unknown.example", 1, 1);
    assert_eq!(h.entries.len(), 1);
    assert_eq!(h.entries[0].avg_latency, Some(23_500));
}
