use vstd::prelude::*;

verus! {

use vstd::string::StringExecFns;
use crate::ping::WebCheckStatus;

/// Aggregated view of the ping history, recomputed on demand.
///
/// All durations are in microseconds. `uptime_pct` and `packet_loss_pct`
/// are in hundredths of a percent (`10000` means 100%); `stability` is a
/// plain 0..=100 score.
#[derive(Debug, Clone)]
pub struct NetworkStats {
    pub current_response: Option<u32>,
    pub current_avg: u64,
    pub avg_response: u64,
    pub min_response: u64,
    pub max_response: u64,
    pub uptime_pct: u64,
    pub packet_loss_pct: u64,
    pub jitter: u64,
    pub stability: u64,
    pub quality: String,
    pub total_pings: u64,
    pub dns_duration: Option<u32>,
    pub tcp_port_80: WebCheckStatus,
    pub tcp_port_443: WebCheckStatus,
}

impl Default for NetworkStats {
    /// The "no data yet" snapshot.
    fn default() -> (r: NetworkStats)
        ensures
            r.current_response is None,
            r.current_avg == 0,
            r.avg_response == 0,
            r.min_response == 0,
            r.max_response == 0,
            r.uptime_pct == 0,
            r.packet_loss_pct == 0,
            r.jitter == 0,
            r.stability == 100,
            r.quality@ == "UNKNOWN"@,
            r.total_pings == 0,
            r.dns_duration is None,
            r.tcp_port_80 == WebCheckStatus::Untested,
            r.tcp_port_443 == WebCheckStatus::Untested,
    {
        NetworkStats {
            current_response: None,
            current_avg: 0,
            avg_response: 0,
            min_response: 0,
            max_response: 0,
            uptime_pct: 0,
            packet_loss_pct: 0,
            jitter: 0,
            stability: 100,
            quality: String::from_str("UNKNOWN"),
            total_pings: 0,
            dns_duration: None,
            tcp_port_80: WebCheckStatus::Untested,
            tcp_port_443: WebCheckStatus::Untested,
        }
    }
}

} // verus!
