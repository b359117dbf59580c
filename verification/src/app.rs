use vstd::prelude::*;

verus! {

use crate::config::Config;
use crate::ping::{IpAddress, PingCommand, PingMonitor};
use crate::portscan::PortScanner;
use crate::speedtest::SpeedTest;

#[derive(Clone, Copy, Debug, PartialEq, Eq, Structural)]
pub enum AppTab {
    Monitor,
    Diagnostics,
    Settings,
}

/// Session state the host mutates in response to key presses: panel
/// flags, the tunables, and the lazily created diagnostics. The host
/// owns the channels and timers; everything here is plain state.
pub struct App {
    pub target: String,
    pub ping_monitor: PingMonitor,
    pub current_tab: AppTab,
    pub show_settings: bool,
    pub show_diagnostics: bool,
    pub show_jitter: bool,
    pub show_history: bool,
    pub enable_web_check: bool,
    pub settings_selected: usize,
    pub speedtest: Option<SpeedTest>,
    pub portscan: Option<PortScanner>,
    pub config: Config,
}

impl App {
    /// The tunables stay in their documented ranges (history window
    /// 30–600 samples, ping interval 50–5000 ms), the monitor matches
    /// the configured window, and the settings cursor stays on the list.
    pub open spec fn wf(&self) -> bool {
        &&& self.ping_monitor.wf()
        &&& 30 <= self.config.graph_history_length <= 600
        &&& 50 <= self.config.ping_interval_ms <= 5000
        &&& self.ping_monitor.max_history == self.config.graph_history_length
        &&& self.settings_selected <= 5
    }

    pub fn new(
        target: String,
        target_addr: IpAddress,
        dns_duration: Option<u32>,
        config: Config,
    ) -> (r: App)
        requires
            30 <= config.graph_history_length <= 600,
            50 <= config.ping_interval_ms <= 5000,
        ensures
            r.wf(),
            r.target == target,
            r.ping_monitor.target_addr == target_addr,
            r.ping_monitor.dns_duration == dns_duration,
            r.ping_monitor.history@ == Seq::<Option<u32>>::empty(),
            r.ping_monitor.total_pings == 0,
            r.current_tab == AppTab::Monitor,
            !r.show_settings,
            !r.show_diagnostics,
            r.show_jitter == config.show_jitter_panel,
            r.show_history == config.show_history_panel,
            !r.enable_web_check,
            r.settings_selected == 0,
            r.speedtest is None,
            r.portscan is None,
            r.config == config,
    {
        let show_jitter = config.show_jitter_panel;
        let show_history = config.show_history_panel;
        let mut ping_monitor = PingMonitor::new(target_addr, config.graph_history_length);
        ping_monitor.dns_duration = dns_duration;
        App {
            target,
            ping_monitor,
            current_tab: AppTab::Monitor,
            show_settings: false,
            show_diagnostics: false,
            show_jitter,
            show_history,
            enable_web_check: false,
            settings_selected: 0,
            speedtest: None,
            portscan: None,
            config,
        }
    }

    /// Opens or closes the settings overlay; opening it closes the
    /// diagnostics overlay.
    pub fn toggle_settings(&mut self)
        ensures
            final(self).show_settings == !old(self).show_settings,
            final(self).show_diagnostics == (if !old(self).show_settings {
                false
            } else {
                old(self).show_diagnostics
            }),
            *final(self) == (App {
                show_settings: final(self).show_settings,
                show_diagnostics: final(self).show_diagnostics,
                ..*old(self)
            }),
    {
        self.show_settings = !self.show_settings;
        if self.show_settings {
            self.show_diagnostics = false;
        }
    }

    /// Opens or closes the diagnostics overlay; opening it closes the
    /// settings overlay.
    pub fn toggle_diagnostics(&mut self)
        ensures
            final(self).show_diagnostics == !old(self).show_diagnostics,
            final(self).show_settings == (if !old(self).show_diagnostics {
                false
            } else {
                old(self).show_settings
            }),
            *final(self) == (App {
                show_settings: final(self).show_settings,
                show_diagnostics: final(self).show_diagnostics,
                ..*old(self)
            }),
    {
        self.show_diagnostics = !self.show_diagnostics;
        if self.show_diagnostics {
            self.show_settings = false;
        }
    }

    pub fn toggle_jitter_panel(&mut self)
        ensures
            final(self).show_jitter == !old(self).show_jitter,
            *final(self) == (App { show_jitter: !old(self).show_jitter, ..*old(self) }),
    {
        self.show_jitter = !self.show_jitter;
    }

    pub fn toggle_history_panel(&mut self)
        ensures
            final(self).show_history == !old(self).show_history,
            *final(self) == (App { show_history: !old(self).show_history, ..*old(self) }),
    {
        self.show_history = !self.show_history;
    }

    /// Clears the monitor's history and counters; configuration, DNS
    /// figure and web-check statuses stay.
    pub fn reset_stats(&mut self)
        requires
            old(self).wf(),
        ensures
            final(self).wf(),
            final(self).ping_monitor.history@ == Seq::<Option<u32>>::empty(),
            final(self).ping_monitor.recent@ == Seq::<u32>::empty(),
            final(self).ping_monitor.total_pings == 0,
            final(self).ping_monitor.successful_pings == 0,
            final(self).ping_monitor.failed_pings == 0,
            final(self).ping_monitor.dns_duration == old(self).ping_monitor.dns_duration,
            final(self).ping_monitor.max_history == old(self).ping_monitor.max_history,
            *final(self) == (App { ping_monitor: final(self).ping_monitor, ..*old(self) }),
    {
        self.ping_monitor.reset();
    }

    /// Flips the web-reachability probes and returns the command to send
    /// to the sampler task.
    pub fn toggle_web_check(&mut self) -> (cmd: PingCommand)
        ensures
            final(self).enable_web_check == !old(self).enable_web_check,
            cmd == PingCommand::ToggleWebCheck(!old(self).enable_web_check),
            *final(self) == (App { enable_web_check: !old(self).enable_web_check, ..*old(self) }),
    {
        self.enable_web_check = !self.enable_web_check;
        PingCommand::ToggleWebCheck(self.enable_web_check)
    }

    /// Creates the speed test lazily; a second start is a no-op while
    /// one is on screen.
    pub fn start_speedtest(&mut self)
        ensures
            old(self).speedtest is None ==> (final(self).speedtest matches Some(st)
                && st.state@ is Preparing && st.target == old(self).target),
            old(self).speedtest is Some ==> final(self).speedtest == old(self).speedtest,
            *final(self) == (App { speedtest: final(self).speedtest, ..*old(self) }),
    {
        if self.speedtest.is_none() {
            self.speedtest = Some(SpeedTest::new(self.target.clone()));
        }
    }

    /// Creates the port scanner lazily; a second start is a no-op while
    /// one is on screen.
    pub fn start_portscan(&mut self)
        ensures
            old(self).portscan is None ==> (final(self).portscan matches Some(ps) && ps.wf()
                && ps.current_index == 0 && !ps.completed && ps.target == old(self).target),
            old(self).portscan is Some ==> final(self).portscan == old(self).portscan,
            *final(self) == (App { portscan: final(self).portscan, ..*old(self) }),
    {
        if self.portscan.is_none() {
            self.portscan = Some(PortScanner::new(self.target.clone()));
        }
    }

    /// Widens the history window by ten samples, up to 600.
    pub fn increase_history(&mut self)
        requires
            old(self).wf(),
        ensures
            final(self).wf(),
            old(self).config.graph_history_length + 10 <= 600 ==> {
                &&& final(self).config.graph_history_length == old(self).config.graph_history_length + 10
                &&& final(self).ping_monitor.max_history == final(self).config.graph_history_length
            },
            old(self).config.graph_history_length + 10 > 600 ==> *final(self) == *old(self),
            final(self).config.ping_interval_ms == old(self).config.ping_interval_ms,
            final(self).ping_monitor.history@ == old(self).ping_monitor.history@,
            final(self).ping_monitor.total_pings == old(self).ping_monitor.total_pings,
    {
        let new_len = self.config.graph_history_length + 10;
        if new_len <= 600 {
            self.config.graph_history_length = new_len;
            self.ping_monitor.set_max_history(new_len);
        }
    }

    /// Narrows the history window by ten samples, down to 30, dropping
    /// the oldest samples at once.
    pub fn decrease_history(&mut self)
        requires
            old(self).wf(),
        ensures
            final(self).wf(),
            old(self).config.graph_history_length >= 40 ==> {
                &&& final(self).config.graph_history_length == old(self).config.graph_history_length - 10
                &&& final(self).ping_monitor.max_history == final(self).config.graph_history_length
                &&& final(self).ping_monitor.history@.len() <= final(self).config.graph_history_length
            },
            old(self).config.graph_history_length < 40 ==> *final(self) == *old(self),
            final(self).config.ping_interval_ms == old(self).config.ping_interval_ms,
            final(self).ping_monitor.total_pings == old(self).ping_monitor.total_pings,
    {
        let new_len = if self.config.graph_history_length >= 10 {
            self.config.graph_history_length - 10
        } else {
            0
        };
        if new_len >= 30 {
            self.config.graph_history_length = new_len;
            self.ping_monitor.set_max_history(new_len);
        }
    }

    /// Quickens the sampler by 50 ms, down to a 50 ms interval; returns
    /// the retiming command to send when the interval changed.
    pub fn increase_speed(&mut self) -> (cmd: Option<PingCommand>)
        requires
            old(self).wf(),
        ensures
            final(self).wf(),
            old(self).config.ping_interval_ms >= 100 ==> {
                &&& final(self).config.ping_interval_ms == old(self).config.ping_interval_ms - 50
                &&& cmd == Some(PingCommand::SetInterval(final(self).config.ping_interval_ms))
            },
            old(self).config.ping_interval_ms < 100 ==> cmd is None && *final(self) == *old(self),
            final(self).config.graph_history_length == old(self).config.graph_history_length,
            final(self).ping_monitor == old(self).ping_monitor,
    {
        let new_interval = if self.config.ping_interval_ms >= 50 {
            self.config.ping_interval_ms - 50
        } else {
            0
        };
        if new_interval >= 50 {
            self.config.ping_interval_ms = new_interval;
            Some(PingCommand::SetInterval(new_interval))
        } else {
            None
        }
    }

    /// Slows the sampler by 50 ms, up to a 5000 ms interval; returns
    /// the retiming command to send when the interval changed.
    pub fn decrease_speed(&mut self) -> (cmd: Option<PingCommand>)
        requires
            old(self).wf(),
        ensures
            final(self).wf(),
            old(self).config.ping_interval_ms + 50 <= 5000 ==> {
                &&& final(self).config.ping_interval_ms == old(self).config.ping_interval_ms + 50
                &&& cmd == Some(PingCommand::SetInterval(final(self).config.ping_interval_ms))
            },
            old(self).config.ping_interval_ms + 50 > 5000 ==> cmd is None && *final(self) == *old(self),
            final(self).config.graph_history_length == old(self).config.graph_history_length,
            final(self).ping_monitor == old(self).ping_monitor,
    {
        let new_interval = self.config.ping_interval_ms + 50;
        if new_interval <= 5000 {
            self.config.ping_interval_ms = new_interval;
            Some(PingCommand::SetInterval(new_interval))
        } else {
            None
        }
    }

    /// Moves the settings cursor up, when the overlay is open.
    pub fn settings_navigate_up(&mut self)
        ensures
            final(self).settings_selected == (if old(self).show_settings && old(self).settings_selected > 0 {
                old(self).settings_selected - 1
            } else {
                old(self).settings_selected as int
            }),
            *final(self) == (App { settings_selected: final(self).settings_selected, ..*old(self) }),
    {
        if self.show_settings && self.settings_selected > 0 {
            self.settings_selected = self.settings_selected - 1;
        }
    }

    /// Moves the settings cursor down, stopping at the last row.
    pub fn settings_navigate_down(&mut self)
        requires
            old(self).settings_selected <= 5,
        ensures
            final(self).settings_selected == (if old(self).show_settings {
                if old(self).settings_selected + 1 < 5 {
                    old(self).settings_selected + 1
                } else {
                    5int
                }
            } else {
                old(self).settings_selected as int
            }),
            *final(self) == (App { settings_selected: final(self).settings_selected, ..*old(self) }),
    {
        if self.show_settings {
            let bumped = self.settings_selected + 1;
            self.settings_selected = if bumped < 5 {
                bumped
            } else {
                5
            };
        }
    }

    /// Toggles the setting under the cursor: the jitter panel, the
    /// history panel, or pausing pings during a speed test.
    pub fn settings_toggle_selected(&mut self)
        ensures
            !old(self).show_settings ==> *final(self) == *old(self),
            old(self).show_settings ==> {
                &&& final(self).show_jitter == (if old(self).settings_selected == 0 {
                    !old(self).show_jitter
                } else {
                    old(self).show_jitter
                })
                &&& final(self).show_history == (if old(self).settings_selected == 1 {
                    !old(self).show_history
                } else {
                    old(self).show_history
                })
                &&& final(self).config.pause_ping_during_speedtest == (if old(self).settings_selected == 2 {
                    !old(self).config.pause_ping_during_speedtest
                } else {
                    old(self).config.pause_ping_during_speedtest
                })
                &&& final(self).config.graph_history_length == old(self).config.graph_history_length
                &&& final(self).config.ping_interval_ms == old(self).config.ping_interval_ms
                &&& final(self).ping_monitor == old(self).ping_monitor
            },
    {
        if !self.show_settings {
            return ;
        }
        if self.settings_selected == 0 {
            self.show_jitter = !self.show_jitter;
        } else if self.settings_selected == 1 {
            self.show_history = !self.show_history;
        } else if self.settings_selected == 2 {
            self.config.pause_ping_during_speedtest = !self.config.pause_ping_during_speedtest;
        }
    }
}

} // verus!
