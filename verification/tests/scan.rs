use port_sniffer::probe::{probe_outcome, ProbeOutcome};
use port_sniffer::request::{Ipv4, ScanRequest};
use port_sniffer::scanner::Scanner;

fn addr() -> Ipv4 {
    Ipv4 { octet_a: 127, octet_b: 0, octet_c: 0, octet_d: 1 }
}

/// Builds a scanner over `[start, end)` and runs the dispatch phase dry,
/// returning the ports that were handed out.
fn dispatch_all(scanner: &mut Scanner) -> Vec<u16> {
    let mut handed_out = Vec::new();
    while let Some(p) = scanner.next_probe() {
        handed_out.push(p);
    }
    handed_out
}

fn scanner_for(start: u32, end: u32) -> Scanner {
    Scanner::new(ScanRequest::new(addr(), start, end).unwrap())
}

#[test]
fn probe_success_is_open() {
    assert_eq!(probe_outcome(8080, true), ProbeOutcome::Open(8080));
}

#[test]
fn probe_failure_is_closed() {
    assert_eq!(probe_outcome(8080, false), ProbeOutcome::Closed);
}

#[test]
fn only_open_ports_are_transmitted() {
    assert_eq!(ProbeOutcome::Open(443).port_to_send(), Some(443));
    assert_eq!(ProbeOutcome::Closed.port_to_send(), None);
}

#[test]
fn dispatch_hands_out_each_port_once_ascending() {
    let mut s = scanner_for(1, 4);
    assert_eq!(dispatch_all(&mut s), vec![1, 2, 3]);
    // the range is exhausted: nothing more is handed out
    assert_eq!(s.next_probe(), None);
    assert_eq!(s.next_probe(), None);
}

#[test]
fn empty_range_scans_nothing() {
    let mut s = scanner_for(80, 80);
    assert_eq!(dispatch_all(&mut s), Vec::<u16>::new());
    let result = s.finish();
    assert_eq!(result.into_ports(), Vec::<u16>::new());
}

#[test]
fn no_open_ports_gives_empty_result() {
    let mut s = scanner_for(100, 110);
    assert_eq!(dispatch_all(&mut s).len(), 10);
    let result = s.finish();
    assert_eq!(result.into_ports(), Vec::<u16>::new());
}

#[test]
fn single_open_port_is_reported_alone() {
    let p: u16 = 4000;
    let mut s = scanner_for(u32::from(p) - 1, u32::from(p) + 2);
    dispatch_all(&mut s);
    s.record_open(p);
    let result = s.finish();
    assert_eq!(result.into_ports(), vec![p]);
}

#[test]
fn result_is_sorted_whatever_the_completion_order() {
    let arrival_orders: [[u16; 3]; 3] = [[5005, 5000, 5002], [5002, 5005, 5000], [5000, 5002, 5005]];
    for order in arrival_orders {
        let mut s = scanner_for(5000, 5010);
        dispatch_all(&mut s);
        for p in order {
            s.record_open(p);
        }
        let result = s.finish();
        assert_eq!(result.into_ports(), vec![5000, 5002, 5005]);
    }
}

#[test]
fn out_of_range_port_is_not_recorded() {
    let mut s = scanner_for(100, 110);
    dispatch_all(&mut s);
    s.record_open(110);
    s.record_open(99);
    s.record_open(105);
    let result = s.finish();
    assert_eq!(result.into_ports(), vec![105]);
}

#[test]
fn duplicate_port_is_recorded_once() {
    let mut s = scanner_for(100, 110);
    dispatch_all(&mut s);
    s.record_open(105);
    s.record_open(105);
    s.record_open(103);
    let result = s.finish();
    assert_eq!(result.into_ports(), vec![103, 105]);
}

#[test]
fn nothing_is_recorded_while_dispatching() {
    let mut s = scanner_for(100, 110);
    s.record_open(105);
    dispatch_all(&mut s);
    let result = s.finish();
    assert_eq!(result.into_ports(), Vec::<u16>::new());
}

#[test]
fn result_accessors_agree() {
    let mut s = scanner_for(1, 10);
    dispatch_all(&mut s);
    s.record_open(7);
    s.record_open(3);
    let result = s.finish();
    assert_eq!(result.len(), 2);
    assert_eq!(result.ports(), &vec![3, 7]);
    assert_eq!(result.into_ports(), vec![3, 7]);
}
