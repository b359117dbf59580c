use vstd::prelude::*;

verus! {

use vstd::string::StringExecFns;

/// Outcome of probing one TCP port: the connect succeeded, was actively
/// refused (or failed at once), or timed out (possibly filtered).
#[derive(Debug, Clone, Copy, PartialEq, Eq, Structural)]
pub enum PortStatus {
    Open,
    Closed,
    Filtered,
}

/// One scanned port with its outcome and well-known service name.
#[derive(Debug, PartialEq, Eq)]
pub struct PortResult {
    pub port: u16,
    pub status: PortStatus,
    pub service: Option<String>,
}

/// The fixed, ordered catalogue of well-known ports that every scan walks.
pub open spec fn port_catalogue() -> Seq<u16> {
    seq![
        21u16,
        22,
        23,
        25,
        53,
        80,
        110,
        111,
        135,
        139,
        143,
        443,
        445,
        993,
        995,
        1433,
        3306,
        3389,
        5432,
        5900,
        6379,
        8000,
        8080,
        8443,
        9200,
        25565,
        27017,
    ]
}

/// Well-known service name for a catalogue port.
pub open spec fn service_name_spec(port: u16) -> Option<Seq<char>> {
    if port == 21 {
        Some("FTP"@)
    } else if port == 22 {
        Some("SSH"@)
    } else if port == 23 {
        Some("Telnet"@)
    } else if port == 25 {
        Some("SMTP"@)
    } else if port == 53 {
        Some("DNS"@)
    } else if port == 80 {
        Some("HTTP"@)
    } else if port == 110 {
        Some("POP3"@)
    } else if port == 111 {
        Some("RPC"@)
    } else if port == 135 {
        Some("MSRPC"@)
    } else if port == 139 {
        Some("NetBIOS"@)
    } else if port == 143 {
        Some("IMAP"@)
    } else if port == 443 {
        Some("HTTPS"@)
    } else if port == 445 {
        Some("SMB"@)
    } else if port == 993 {
        Some("IMAPS"@)
    } else if port == 995 {
        Some("POP3S"@)
    } else if port == 1433 {
        Some("MSSQL"@)
    } else if port == 3306 {
        Some("MySQL"@)
    } else if port == 3389 {
        Some("RDP"@)
    } else if port == 5432 {
        Some("PostgreSQL"@)
    } else if port == 5900 {
        Some("VNC"@)
    } else if port == 6379 {
        Some("Redis"@)
    } else if port == 8000 {
        Some("HTTP-Alt"@)
    } else if port == 8080 {
        Some("HTTP-Alt"@)
    } else if port == 8443 {
        Some("HTTPS-Alt"@)
    } else if port == 9200 {
        Some("ElasticSearch"@)
    } else if port == 25565 {
        Some("Minecraft"@)
    } else if port == 27017 {
        Some("MongoDB"@)
    } else {
        None
    }
}

/// `s` holds exactly the service name that the catalogue assigns to `port`.
pub open spec fn service_matches(s: Option<String>, port: u16) -> bool {
    match s {
        Some(name) => service_name_spec(port) is Some && name@ == service_name_spec(port)->Some_0,
        None => service_name_spec(port) is None,
    }
}

/// Classifies a connect attempt: completed means open, an immediate
/// error means closed, and running out of time means filtered.
pub fn classify_connect(connected: bool, timed_out: bool) -> (r: PortStatus)
    ensures
        r == (if connected {
            PortStatus::Open
        } else if timed_out {
            PortStatus::Filtered
        } else {
            PortStatus::Closed
        }),
{
    if connected {
        PortStatus::Open
    } else if timed_out {
        PortStatus::Filtered
    } else {
        PortStatus::Closed
    }
}

/// Well-known service name for a port, as an owned string.
pub fn identify_service(port: u16) -> (r: Option<String>)
    ensures
        service_matches(r, port),
{
    match port {
        21 => Some(String::from_str("FTP")),
        22 => Some(String::from_str("SSH")),
        23 => Some(String::from_str("Telnet")),
        25 => Some(String::from_str("SMTP")),
        53 => Some(String::from_str("DNS")),
        80 => Some(String::from_str("HTTP")),
        110 => Some(String::from_str("POP3")),
        111 => Some(String::from_str("RPC")),
        135 => Some(String::from_str("MSRPC")),
        139 => Some(String::from_str("NetBIOS")),
        143 => Some(String::from_str("IMAP")),
        443 => Some(String::from_str("HTTPS")),
        445 => Some(String::from_str("SMB")),
        993 => Some(String::from_str("IMAPS")),
        995 => Some(String::from_str("POP3S")),
        1433 => Some(String::from_str("MSSQL")),
        3306 => Some(String::from_str("MySQL")),
        3389 => Some(String::from_str("RDP")),
        5432 => Some(String::from_str("PostgreSQL")),
        5900 => Some(String::from_str("VNC")),
        6379 => Some(String::from_str("Redis")),
        8000 => Some(String::from_str("HTTP-Alt")),
        8080 => Some(String::from_str("HTTP-Alt")),
        8443 => Some(String::from_str("HTTPS-Alt")),
        9200 => Some(String::from_str("ElasticSearch")),
        25565 => Some(String::from_str("Minecraft")),
        27017 => Some(String::from_str("MongoDB")),
        _ => None,
    }
}

/// Index reached after one more cooperative batch from `idx`.
pub open spec fn batch_end_spec(idx: int, n: int) -> int {
    if idx + 5 <= n {
        idx + 5
    } else {
        n
    }
}

/// Cooperative scanner over the fixed catalogue: each `update` consumes
/// the outcomes for the next batch of at most five ports and appends
/// them, in catalogue order, to an append-only result list.
pub struct PortScanner {
    pub target: String,
    pub ports: Vec<u16>,
    pub results: Vec<PortResult>,
    pub current_index: usize,
    pub completed: bool,
}

impl PortScanner {
    /// Structural invariant: the catalogue is fixed, exactly the first
    /// `current_index` ports have results, each result carries its
    /// catalogue port and service name, and `completed` means the index
    /// has reached the end.
    pub open spec fn wf(&self) -> bool {
        &&& self.ports@ == port_catalogue()
        &&& self.current_index <= self.ports@.len()
        &&& self.results@.len() == self.current_index
        &&& self.completed == (self.current_index == self.ports@.len())
        &&& forall|i: int|
            0 <= i < self.results@.len() ==> (#[trigger] self.results@[i]).port
                == port_catalogue()[i]
        &&& forall|i: int|
            0 <= i < self.results@.len() ==> service_matches(
                (#[trigger] self.results@[i]).service,
                port_catalogue()[i],
            )
    }

    /// Number of ports the next `update` call expects outcomes for.
    pub open spec fn pending_count(&self) -> int {
        batch_end_spec(self.current_index as int, self.ports@.len() as int)
            - self.current_index as int
    }

    pub fn new(target: String) -> (r: PortScanner)
        ensures
            r.wf(),
            r.target == target,
            r.results@.len() == 0,
            r.current_index == 0,
            !r.completed,
            r.ports@ == port_catalogue(),
    {
        let ports: Vec<u16> = vec![
            21,
            22,
            23,
            25,
            53,
            80,
            110,
            111,
            135,
            139,
            143,
            443,
            445,
            993,
            995,
            1433,
            3306,
            3389,
            5432,
            5900,
            6379,
            8000,
            8080,
            8443,
            9200,
            25565,
            27017,
        ];
        proof {
            assert(ports@ =~= port_catalogue());
        }
        PortScanner { target, ports, results: Vec::new(), current_index: 0, completed: false }
    }

    /// The ports of the next batch, in catalogue order. The host connects
    /// to each (with its own timeout) and hands the outcomes back to
    /// `update` in the same order.
    pub fn pending_ports(&self) -> (r: Vec<u16>)
        requires
            self.wf(),
        ensures
            r@ == self.ports@.subrange(
                self.current_index as int,
                batch_end_spec(self.current_index as int, self.ports@.len() as int),
            ),
            r@.len() == self.pending_count(),
    {
        let n = self.ports.len();
        let end = if self.current_index + 5 <= n {
            self.current_index + 5
        } else {
            n
        };
        let mut out: Vec<u16> = Vec::new();
        let mut i = self.current_index;
        while i < end
            invariant
                self.current_index <= i <= end,
                end == batch_end_spec(self.current_index as int, self.ports@.len() as int),
                end <= self.ports@.len(),
                out@ == self.ports@.subrange(self.current_index as int, i as int),
            decreases end - i,
        {
            let p = self.ports[i];
            out.push(p);
            proof {
                assert(self.ports@.subrange(self.current_index as int, i + 1) =~= self.ports@
                    .subrange(self.current_index as int, i as int).push(self.ports@[i as int]));
            }
            i = i + 1;
        }
        out
    }

    /// Advances the scan by one batch. `statuses` holds the outcome of
    /// each pending port, in order; the call appends one result per
    /// outcome and reports whether the whole catalogue has been scanned.
    /// Calling it again after completion changes nothing and reports
    /// completion again.
    pub fn update(&mut self, statuses: Vec<PortStatus>) -> (complete: bool)
        requires
            old(self).wf(),
            statuses@.len() == old(self).pending_count(),
        ensures
            final(self).wf(),
            final(self).target == old(self).target,
            final(self).ports@ == old(self).ports@,
            final(self).current_index == batch_end_spec(
                old(self).current_index as int,
                old(self).ports@.len() as int,
            ),
            final(self).results@.len() == final(self).current_index,
            final(self).results@.subrange(0, old(self).results@.len() as int) == old(
                self,
            ).results@,
            forall|k: int|
                0 <= k < statuses@.len() ==> (#[trigger] final(self).results@[old(
                    self,
                ).current_index + k]).status == statuses@[k],
            complete == final(self).completed,
            complete == (final(self).current_index == final(self).ports@.len()),
    {
        if self.completed {
            proof {
                assert(self.results@.subrange(0, self.results@.len() as int) =~= self.results@);
            }
            return true;
        }
        let n = self.ports.len();
        let end = if self.current_index + 5 <= n {
            self.current_index + 5
        } else {
            n
        };
        let mut k: usize = 0;
        let base = self.current_index;
        while k < end - base
            invariant
                base == old(self).current_index,
                self.current_index == base,
                self.completed == old(self).completed,
                self.target == old(self).target,
                self.ports@ == old(self).ports@,
                old(self).wf(),
                self.ports@ == port_catalogue(),
                base + k <= end <= self.ports@.len(),
                end == batch_end_spec(base as int, self.ports@.len() as int),
                statuses@.len() == end - base,
                self.results@.len() == base + k,
                self.results@.subrange(0, base as int) == old(self).results@,
                forall|i: int|
                    0 <= i < self.results@.len() ==> (#[trigger] self.results@[i]).port
                        == port_catalogue()[i],
                forall|i: int|
                    0 <= i < self.results@.len() ==> service_matches(
                        (#[trigger] self.results@[i]).service,
                        port_catalogue()[i],
                    ),
                forall|i: int|
                    0 <= i < k ==> (#[trigger] self.results@[base + i]).status == statuses@[i],
            decreases end - base - k,
        {
            let port = self.ports[base + k];
            let status = statuses[k];
            let service = identify_service(port);
            let ghost pre = self.results@;
            self.results.push(PortResult { port, status, service });
            proof {
                assert(self.results@.subrange(0, base as int) =~= pre.subrange(0, base as int));
            }
            k = k + 1;
        }
        self.current_index = end;
        if end == n {
            self.completed = true;
            return true;
        }
        false
    }

    /// All results recorded so far, in catalogue order.
    pub fn results(&self) -> (r: &Vec<PortResult>)
        ensures
            r@ == self.results@,
    {
        &self.results
    }

    /// `(scanned so far, catalogue size)`.
    pub fn progress(&self) -> (r: (usize, usize))
        ensures
            r.0 == self.current_index,
            r.1 == self.ports@.len(),
    {
        (self.current_index, self.ports.len())
    }

    pub fn is_complete(&self) -> (r: bool)
        ensures
            r == self.completed,
    {
        self.completed
    }
}

/// Index reached after `k` cooperative batches over `n` ports.
pub open spec fn scan_index_after(k: nat, n: nat) -> int
    decreases k,
{
    if k == 0 {
        0
    } else {
        batch_end_spec(scan_index_after((k - 1) as nat, n), n as int)
    }
}

/// Closed form of the batch recurrence: after `k` calls the scan stands
/// at `min(5k, n)`, so it is finished exactly when `5k >= n`.
pub proof fn lemma_scan_index_closed_form(k: nat, n: nat)
    ensures
        scan_index_after(k, n) == (if 5 * k <= n {
            5 * k as int
        } else {
            n as int
        }),
    decreases k,
{
    if k > 0 {
        lemma_scan_index_closed_form((k - 1) as nat, n);
    }
}

/// Scanning `n` ports in batches of five takes exactly ⌈n/5⌉ `update`
/// calls: that many reach the end of the catalogue, and, when `n > 0`,
/// one fewer does not.
pub proof fn lemma_scan_completes_in_ceil(n: nat)
    ensures
        scan_index_after(((n + 4) / 5) as nat, n) == n,
        n > 0 ==> scan_index_after(((n + 4) / 5 - 1) as nat, n) < n,
{
    let q = (n + 4) / 5;
    vstd::arithmetic::div_mod::lemma_fundamental_div_mod((n + 4) as int, 5);
    assert(5 * q >= n);
    lemma_scan_index_closed_form(q as nat, n);
    if n > 0 {
        assert(q >= 1);
        assert(5 * (q - 1) < n);
        lemma_scan_index_closed_form((q - 1) as nat, n);
    }
}

/// Chain of strict increases along a sequence.
proof fn lemma_chain_lt(s: Seq<u16>, i: int, j: int)
    requires
        forall|t: int| 0 <= t < s.len() - 1 ==> #[trigger] s[t] < s[t + 1],
        0 <= i < j < s.len(),
    ensures
        s[i] < s[j],
    decreases j - i,
{
    if i + 1 < j {
        lemma_chain_lt(s, i, j - 1);
    }
}

/// The catalogue is strictly increasing, so no port appears twice in it —
/// and hence no port appears twice in a scanner's results.
pub proof fn lemma_no_port_scanned_twice(s: &PortScanner)
    requires
        s.wf(),
    ensures
        forall|i: int, j: int|
            0 <= i < j < s.results@.len() ==> (#[trigger] s.results@[i]).port != (
            #[trigger] s.results@[j]).port,
{
    let cat = port_catalogue();
    assert(forall|t: int| 0 <= t < cat.len() - 1 ==> #[trigger] cat[t] < cat[t + 1]);
    assert forall|i: int, j: int| 0 <= i < j < s.results@.len() implies (
    #[trigger] s.results@[i]).port != (#[trigger] s.results@[j]).port by {
        lemma_chain_lt(cat, i, j);
    }
}

} // verus!
