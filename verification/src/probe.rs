//! Probe outcomes.
//!
//! A probe is one TCP connection attempt to one port. Every kind of
//! connection failure — refused, timed out, unreachable — is folded into the
//! single outcome [`ProbeOutcome::Closed`]; a success becomes
//! [`ProbeOutcome::Open`] carrying the probed port. Only open ports are ever
//! transmitted to the collector.

use vstd::prelude::*;

verus! {

/// What one connection attempt established about one port.
#[derive(Clone, Copy, Debug, PartialEq, Eq, Structural)]
pub enum ProbeOutcome {
    /// The connection succeeded; the port is open.
    Open(u16),
    /// The connection failed, for whatever reason; the port counts as closed.
    Closed,
}

/// Folds the result of a connection attempt into a [`ProbeOutcome`]: success
/// yields `Open(port)`, any failure yields `Closed`. No error detail
/// survives this fold.
pub fn probe_outcome(port: u16, connected: bool) -> (r: ProbeOutcome)
    ensures
        r == if connected {
            ProbeOutcome::Open(port)
        } else {
            ProbeOutcome::Closed
        },
{
    if connected {
        ProbeOutcome::Open(port)
    } else {
        ProbeOutcome::Closed
    }
}

impl ProbeOutcome {
    /// The port to transmit to the collector: the probed port if it is open,
    /// nothing otherwise (closed outcomes are discarded, not transmitted).
    pub fn port_to_send(&self) -> (r: Option<u16>)
        ensures
            r == match *self {
                ProbeOutcome::Open(p) => Some(p),
                ProbeOutcome::Closed => None::<u16>,
            },
    {
        match *self {
            ProbeOutcome::Open(p) => Some(p),
            ProbeOutcome::Closed => None,
        }
    }
}

} // verus!
