use port_sniffer::collector::Collector;
use port_sniffer::probe::{ProbeOutcome, PROGRESS_MARK};
use port_sniffer::report::{report_line, report_lines};
use port_sniffer::request::{
    end_port_guard, start_port_guard, Address, RequestError, ScanRequest, MAX_PORT,
};

fn collect(arrivals: &[u16]) -> Vec<u16> {
    let mut c = Collector::new();
    for p in arrivals {
        c.record(*p);
    }
    c.finish()
}

fn request(start: u16, end: u16) -> ScanRequest {
    ScanRequest::new(Address::loopback(), start, end).unwrap()
}

/// Ports that a scan of `[start, end)` would hand on, in the order given,
/// when `listening` accept connections.
fn arrivals_for(req: &ScanRequest, order: &[u16], listening: &[u16]) -> Vec<u16> {
    let ports = req.ports();
    order
        .iter()
        .copied()
        .filter(|p| ports.contains(p) && listening.contains(p))
        .collect()
}

#[test]
fn start_guard_refuses_zero() {
    assert!(!start_port_guard(&0));
    assert!(start_port_guard(&1));
    assert!(start_port_guard(&MAX_PORT));
}

#[test]
fn end_guard_accepts_every_port() {
    assert!(end_port_guard(&0));
    assert!(end_port_guard(&1));
    assert!(end_port_guard(&65535));
}

#[test]
fn loopback_is_default_address() {
    assert_eq!(Address::loopback(), Address::V4([127, 0, 0, 1]));
}

#[test]
fn request_refuses_zero_start() {
    assert_eq!(
        ScanRequest::new(Address::loopback(), 0, 10).unwrap_err(),
        RequestError::StartPortZero
    );
}

#[test]
fn request_refuses_start_after_end() {
    assert_eq!(
        ScanRequest::new(Address::loopback(), 20, 10).unwrap_err(),
        RequestError::StartAfterEnd
    );
}

#[test]
fn request_keeps_its_fields() {
    let r = ScanRequest::new(Address::V4([10, 0, 0, 2]), 1, MAX_PORT).unwrap();
    assert_eq!(r.address, Address::V4([10, 0, 0, 2]));
    assert_eq!(r.start_port, 1);
    assert_eq!(r.end_port, 65535);
}

#[test]
fn ports_are_half_open_range() {
    let ports = request(2990, 3010).ports();
    assert_eq!(ports.len(), 20);
    assert_eq!(ports[0], 2990);
    assert_eq!(ports[19], 3009);
    assert!(ports.windows(2).all(|w| w[1] == w[0] + 1));
}

#[test]
fn ports_reach_highest_below_end() {
    assert_eq!(request(65534, 65535).ports(), vec![65534]);
    let all = request(1, 65535).ports();
    assert_eq!(all.len(), 65534);
    assert_eq!(all[65533], 65534);
}

#[test]
fn empty_range_probes_nothing() {
    let req = request(10, 10);
    assert!(req.ports().is_empty());
    let report = collect(&[]);
    assert!(report.is_empty());
    assert_eq!(report_lines(&report).len(), 0);
}

#[test]
fn outcome_of_connection_is_forwarded() {
    let open = ProbeOutcome { port: 3000, reachable: true };
    assert_eq!(open.forwarded(), Some(3000));
    assert_eq!(open.progress_mark(), Some('.'));
    assert_eq!(PROGRESS_MARK, '.');
}

#[test]
fn failed_connection_is_silent() {
    let closed = ProbeOutcome { port: 3001, reachable: false };
    assert_eq!(closed.forwarded(), None);
    assert_eq!(closed.progress_mark(), None);
}

#[test]
fn collector_keeps_arrival_order_until_finish() {
    let mut c = Collector::new();
    assert_eq!(c.len(), 0);
    c.record(9);
    c.record(3);
    assert_eq!(c.len(), 2);
    assert_eq!(c.finish(), vec![3, 9]);
}

#[test]
fn finish_sorts_any_order() {
    assert_eq!(collect(&[5, 1, 4, 2, 3]), vec![1, 2, 3, 4, 5]);
    assert_eq!(collect(&[65535, 0, 80, 443, 22]), vec![0, 22, 80, 443, 65535]);
    assert_eq!(collect(&[7]), vec![7]);
}

#[test]
fn finish_keeps_repeated_ports() {
    assert_eq!(collect(&[4, 2, 4]), vec![2, 4, 4]);
}

#[test]
fn two_listeners_report_in_order() {
    let req = request(2990, 3010);
    let arrivals = arrivals_for(&req, &[3005, 3000], &[3000, 3005]);
    let lines = report_lines(&collect(&arrivals));
    assert_eq!(lines, vec!["3000 is open".to_string(), "3005 is open".to_string()]);
}

#[test]
fn empty_range_report_has_no_lines() {
    let req = request(10, 10);
    let arrivals = arrivals_for(&req, &[10, 11], &[10, 11]);
    assert!(arrivals.is_empty());
    assert!(report_lines(&collect(&arrivals)).is_empty());
}

#[test]
fn report_lists_only_listeners_in_range() {
    let req = request(100, 200);
    let listening = [50, 100, 150, 199, 200, 300];
    let arrivals = arrivals_for(&req, &[300, 199, 50, 100, 200, 150], &listening);
    assert_eq!(collect(&arrivals), vec![100, 150, 199]);
}

#[test]
fn report_is_strictly_ascending() {
    let req = request(1, 1000);
    let order: Vec<u16> = (1..1000).rev().collect();
    let listening: Vec<u16> = (1..1000).filter(|p| p % 7 == 0).collect();
    let report = collect(&arrivals_for(&req, &order, &listening));
    assert!(report.windows(2).all(|w| w[0] < w[1]));
    assert_eq!(report.len(), 142);
}

#[test]
fn same_scan_twice_gives_same_report() {
    let req = request(20, 40);
    let listening = [21, 25, 33, 39];
    let first = collect(&arrivals_for(&req, &[39, 21, 33, 25], &listening));
    let second = collect(&arrivals_for(&req, &[25, 33, 39, 21], &listening));
    assert_eq!(first, second);
    assert_eq!(first, vec![21, 25, 33, 39]);
}

#[test]
fn line_count_matches_listeners() {
    let req = request(1, 11);
    let every: Vec<u16> = (1..11).collect();
    let lines = report_lines(&collect(&arrivals_for(&req, &every, &every)));
    assert_eq!(lines.len(), 10);
    assert_eq!(lines[0], "1 is open");
    assert_eq!(lines[9], "10 is open");
}

#[test]
fn report_line_writes_decimal_port() {
    assert_eq!(report_line(0), "0 is open");
    assert_eq!(report_line(7), "7 is open");
    assert_eq!(report_line(10), "10 is open");
    assert_eq!(report_line(3000), "3000 is open");
    assert_eq!(report_line(65535), "65535 is open");
}
