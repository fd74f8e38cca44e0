use port_sniffer::request::{end_port_guard, start_port_guard, ArgError, Ipv4, ScanRequest, MAX_PORT};

fn addr() -> Ipv4 {
    Ipv4 { octet_a: 127, octet_b: 0, octet_c: 0, octet_d: 1 }
}

#[test]
fn start_guard_rejects_zero() {
    assert!(!start_port_guard(&0));
}

#[test]
fn start_guard_accepts_one() {
    assert!(start_port_guard(&1));
    assert!(start_port_guard(&65535));
}

#[test]
fn end_guard_accepts_up_to_max() {
    assert!(end_port_guard(&1));
    assert!(end_port_guard(&MAX_PORT));
}

#[test]
fn new_rejects_start_port_zero() {
    let r = ScanRequest::new(addr(), 0, 1000);
    assert_eq!(r, Err(ArgError::StartPortZero));
}

#[test]
fn new_rejects_end_port_above_max() {
    let r = ScanRequest::new(addr(), 1, 65536);
    assert_eq!(r, Err(ArgError::EndPortTooLarge));
    let r = ScanRequest::new(addr(), 1, 100_000);
    assert_eq!(r, Err(ArgError::EndPortTooLarge));
}

#[test]
fn new_rejects_inverted_range() {
    let r = ScanRequest::new(addr(), 10, 5);
    assert_eq!(r, Err(ArgError::InvertedRange));
}

#[test]
fn new_accepts_valid_range() {
    let req = ScanRequest::new(addr(), 1, 65535).unwrap();
    assert_eq!(req.start_port(), 1);
    assert_eq!(req.end_port(), 65535);
    assert_eq!(req.address(), addr());
}

#[test]
fn new_accepts_empty_range() {
    let req = ScanRequest::new(addr(), 80, 80).unwrap();
    assert_eq!(req.start_port(), 80);
    assert_eq!(req.end_port(), 80);
}

#[test]
fn fallback_address_is_loopback_net() {
    let f = Ipv4::fallback();
    assert_eq!(f, Ipv4 { octet_a: 127, octet_b: 0, octet_c: 0, octet_d: 0 });
}
