//! A concurrent TCP port scanner's verified core.
//!
//! Given an IPv4 address and a half-open port range, the scanner probes every
//! port in the range exactly once, collects the ports whose connection
//! attempts succeeded, and reports them in ascending order. The network
//! probes themselves are performed by an unverified shell around this
//! library; everything this crate exports — argument validation, the folding
//! of connection outcomes, the dispatch/collect state machine, and the final
//! sort — is verified.

pub mod probe;
pub mod request;
pub mod scanner;
