//! Scan requests and their validation.
//!
//! A [`ScanRequest`] names an IPv4 target and a half-open port range
//! `[start_port, end_port)`. Its constructor is the single validation point:
//! a request can only be built with a start port of at least 1, an end port
//! of at most [`MAX_PORT`], and a non-inverted range, so every `ScanRequest`
//! value satisfies [`ScanRequest::wf`].

use vstd::prelude::*;

verus! {

/// The largest port number a request may name.
pub const MAX_PORT: u16 = 65535;

/// An IPv4 address as its four octets, most significant first.
#[derive(Clone, Copy, Debug, PartialEq, Eq, Structural)]
pub struct Ipv4 {
    pub octet_a: u8,
    pub octet_b: u8,
    pub octet_c: u8,
    pub octet_d: u8,
}

impl Ipv4 {
    /// The address a scan falls back to when none is given: 127.0.0.0.
    pub fn fallback() -> (r: Ipv4)
        ensures
            r == (Ipv4 { octet_a: 127, octet_b: 0, octet_c: 0, octet_d: 0 }),
    {
        Ipv4 { octet_a: 127, octet_b: 0, octet_c: 0, octet_d: 0 }
    }
}

/// Why a candidate request was rejected.
#[derive(Clone, Copy, Debug, PartialEq, Eq, Structural)]
pub enum ArgError {
    /// The start port was 0; ports are numbered from 1.
    StartPortZero,
    /// The end port was above [`MAX_PORT`].
    EndPortTooLarge,
    /// The start port was above the end port.
    InvertedRange,
}

/// Accepts a candidate start port: it must be at least 1.
pub fn start_port_guard(input: &u16) -> (r: bool)
    ensures
        r == (*input > 0),
{
    *input > 0
}

/// Accepts a candidate end port: it must be at most [`MAX_PORT`].
pub fn end_port_guard(input: &u16) -> (r: bool)
    ensures
        r == (*input <= MAX_PORT),
{
    *input <= MAX_PORT
}

/// A validated scan request: probe every port in `[start_port, end_port)`
/// of `address`.
#[derive(Clone, Copy, Debug, PartialEq, Eq, Structural)]
pub struct ScanRequest {
    address: Ipv4,
    start_port: u16,
    end_port: u16,
}

impl ScanRequest {
    /// The target address.
    pub closed spec fn spec_address(self) -> Ipv4 {
        self.address
    }

    /// The first port of the range.
    pub closed spec fn spec_start_port(self) -> u16 {
        self.start_port
    }

    /// One past the last port of the range.
    pub closed spec fn spec_end_port(self) -> u16 {
        self.end_port
    }

    /// Every request built by [`ScanRequest::new`] satisfies this.
    pub open spec fn wf(self) -> bool {
        1 <= self.spec_start_port() <= self.spec_end_port()
    }

    /// Whether `port` lies in the half-open range of this request.
    pub open spec fn spec_in_range(self, port: u16) -> bool {
        self.spec_start_port() <= port < self.spec_end_port()
    }

    /// How many ports the request covers.
    pub open spec fn spec_range_len(self) -> int {
        self.spec_end_port() - self.spec_start_port()
    }

    /// Validates a candidate request. The ports are taken as `u32` so that
    /// every out-of-range candidate, 0 as well as anything above
    /// [`MAX_PORT`], is rejected here rather than by an earlier narrowing.
    pub fn new(address: Ipv4, start_port: u32, end_port: u32) -> (r: Result<ScanRequest, ArgError>)
        ensures
            r is Ok <==> 1 <= start_port <= end_port <= MAX_PORT,
            r matches Ok(req) ==> {
                &&& req.wf()
                &&& req.spec_address() == address
                &&& req.spec_start_port() == start_port
                &&& req.spec_end_port() == end_port
            },
            start_port == 0 ==> r == Err::<ScanRequest, ArgError>(ArgError::StartPortZero),
            start_port >= 1 && end_port > MAX_PORT ==> r == Err::<ScanRequest, ArgError>(
                ArgError::EndPortTooLarge,
            ),
            start_port >= 1 && end_port <= MAX_PORT && start_port > end_port ==> r == Err::<
                ScanRequest,
                ArgError,
            >(ArgError::InvertedRange),
    {
        if start_port == 0 {
            Err(ArgError::StartPortZero)
        } else if end_port > MAX_PORT as u32 {
            Err(ArgError::EndPortTooLarge)
        } else if start_port > end_port {
            Err(ArgError::InvertedRange)
        } else {
            Ok(ScanRequest { address, start_port: start_port as u16, end_port: end_port as u16 })
        }
    }

    /// The target address.
    pub fn address(&self) -> (r: Ipv4)
        ensures
            r == self.spec_address(),
    {
        self.address
    }

    /// The first port of the range.
    pub fn start_port(&self) -> (r: u16)
        ensures
            r == self.spec_start_port(),
    {
        self.start_port
    }

    /// One past the last port of the range.
    pub fn end_port(&self) -> (r: u16)
        ensures
            r == self.spec_end_port(),
    {
        self.end_port
    }
}

} // verus!
