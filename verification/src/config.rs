use vstd::prelude::*;

verus! {

use vstd::string::StringExecFns;

/// Session configuration bundle, loaded once at start from the persisted
/// JSON document and adjusted at runtime from the settings panel.
#[derive(Debug, PartialEq, Eq)]
pub struct Config {
    pub pause_ping_during_speedtest: bool,
    pub graph_history_length: usize,
    pub ping_interval_ms: u64,
    pub show_jitter_panel: bool,
    pub show_history_panel: bool,
    pub speedtest_provider: String,
}

impl Clone for Config {
    fn clone(&self) -> (r: Config)
        ensures
            r.pause_ping_during_speedtest == self.pause_ping_during_speedtest,
            r.graph_history_length == self.graph_history_length,
            r.ping_interval_ms == self.ping_interval_ms,
            r.show_jitter_panel == self.show_jitter_panel,
            r.show_history_panel == self.show_history_panel,
            r.speedtest_provider == self.speedtest_provider,
    {
        Config {
            pause_ping_during_speedtest: self.pause_ping_during_speedtest,
            graph_history_length: self.graph_history_length,
            ping_interval_ms: self.ping_interval_ms,
            show_jitter_panel: self.show_jitter_panel,
            show_history_panel: self.show_history_panel,
            speedtest_provider: self.speedtest_provider.clone(),
        }
    }
}

impl Default for Config {
    /// 200 samples of history, one ping every 500 ms, both panels shown.
    fn default() -> (r: Config)
        ensures
            r.pause_ping_during_speedtest == true,
            r.graph_history_length == 200,
            r.ping_interval_ms == 500,
            r.show_jitter_panel == true,
            r.show_history_panel == true,
            r.speedtest_provider@ == "ookla"@,
    {
        Config {
            pause_ping_during_speedtest: true,
            graph_history_length: 200,
            ping_interval_ms: 500,
            show_jitter_panel: true,
            show_history_panel: true,
            speedtest_provider: String::from_str("ookla"),
        }
    }
}

} // verus!
