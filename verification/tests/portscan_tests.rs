use rustyping::portscan::{classify_connect, identify_service, PortScanner, PortStatus};

fn scanner() -> PortScanner {
    PortScanner::new(String::from("192.0.2.1"))
}

fn closed_batch(n: usize) -> Vec<PortStatus> {
    vec![PortStatus::Closed; n]
}

#[test]
fn test_full_scan_takes_six_batches() {
    let mut ps = scanner();
    let total = ps.progress().1;
    assert_eq!(total, 27);
    let mut updates = 0;
    while !ps.is_complete() {
        let pending = ps.pending_ports();
        assert!(pending.len() <= 5 && !pending.is_empty());
        let complete = ps.update(closed_batch(pending.len()));
        updates += 1;
        assert_eq!(complete, ps.is_complete());
        assert_eq!(ps.progress().0, (5 * updates).min(27));
        assert!(updates <= 6);
    }
    // 27 ports in batches of 5: six calls, the ceiling of 27 / 5.
    assert_eq!(updates, 6);
    assert_eq!(ps.results().len(), 27);
    assert_eq!(ps.progress(), (27, 27));
}

#[test]
fn test_update_after_completion_is_noop() {
    let mut ps = scanner();
    while !ps.is_complete() {
        let pending = ps.pending_ports();
        ps.update(closed_batch(pending.len()));
    }
    let complete_again = ps.update(Vec::new());
    assert!(complete_again);
    assert_eq!(ps.results().len(), 27);
    assert_eq!(ps.progress(), (27, 27));
}

#[test]
fn test_no_port_scanned_twice() {
    let mut ps = scanner();
    while !ps.is_complete() {
        let pending = ps.pending_ports();
        ps.update(closed_batch(pending.len()));
    }
    let mut seen: Vec<u16> = ps.results().iter().map(|r| r.port).collect();
    let n = seen.len();
    seen.sort_unstable();
    seen.dedup();
    assert_eq!(seen.len(), n);
}

#[test]
fn test_results_follow_catalogue_order() {
    let mut ps = scanner();
    let first = ps.pending_ports();
    assert_eq!(first, vec![21, 22, 23, 25, 53]);
    ps.update(vec![
        PortStatus::Closed,
        PortStatus::Open,
        PortStatus::Filtered,
        PortStatus::Closed,
        PortStatus::Open,
    ]);
    let results = ps.results();
    assert_eq!(results.len(), 5);
    assert_eq!(results[0].port, 21);
    assert_eq!(results[0].status, PortStatus::Closed);
    assert_eq!(results[0].service.as_deref(), Some("FTP"));
    assert_eq!(results[1].port, 22);
    assert_eq!(results[1].status, PortStatus::Open);
    assert_eq!(results[1].service.as_deref(), Some("SSH"));
    assert_eq!(results[2].status, PortStatus::Filtered);
    assert!(!ps.is_complete());
    assert_eq!(ps.progress(), (5, 27));
}

#[test]
fn test_last_batch_is_short() {
    let mut ps = scanner();
    for _ in 0..5 {
        let pending = ps.pending_ports();
        assert_eq!(pending.len(), 5);
        ps.update(closed_batch(5));
    }
    let last = ps.pending_ports();
    assert_eq!(last.len(), 2);
    assert_eq!(last, vec![25565, 27017]);
    let complete = ps.update(closed_batch(2));
    assert!(complete);
}

#[test]
fn test_identify_service() {
    assert_eq!(identify_service(21).as_deref(), Some("FTP"));
    assert_eq!(identify_service(443).as_deref(), Some("HTTPS"));
    assert_eq!(identify_service(8080).as_deref(), Some("HTTP-Alt"));
    assert_eq!(identify_service(27017).as_deref(), Some("MongoDB"));
    assert_eq!(identify_service(12345), None);
}

#[test]
fn test_classify_connect() {
    assert_eq!(classify_connect(true, false), PortStatus::Open);
    assert_eq!(classify_connect(true, true), PortStatus::Open);
    assert_eq!(classify_connect(false, false), PortStatus::Closed);
    assert_eq!(classify_connect(false, true), PortStatus::Filtered);
}
