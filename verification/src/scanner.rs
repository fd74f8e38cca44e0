//! The scan coordinator: dispatch, collection, and the final sort.
//!
//! A [`Scanner`] drives one scan. While it is
//! [`Dispatching`](ScanPhase::Dispatching), [`Scanner::next_probe`] hands out
//! every port of the requested range exactly once, in ascending order; the
//! caller launches one probe per port. Once the range is exhausted the
//! scanner is [`Draining`](ScanPhase::Draining): [`Scanner::record_open`]
//! accepts the open ports arriving from the fan-in channel, in whatever
//! order the probes happen to complete. [`Scanner::finish`] then sorts what
//! was collected and returns it as a [`ScanResult`] — the scan's terminal
//! state.

use crate::request::ScanRequest;
use vstd::prelude::*;
use vstd::seq_lib::group_to_multiset_ensures;

verus! {

/// The sequence is sorted in ascending order (duplicates allowed).
pub open spec fn sorted(s: Seq<u16>) -> bool {
    forall|i: int, j: int| 0 <= i < j < s.len() ==> s[i] <= s[j]
}

/// The sequence is strictly ascending: sorted and free of duplicates.
pub open spec fn strictly_ascending(s: Seq<u16>) -> bool {
    forall|i: int, j: int| 0 <= i < j < s.len() ==> s[i] < s[j]
}

/// The two live phases of a scan; completion is represented by the
/// [`ScanResult`] that [`Scanner::finish`] returns.
#[derive(Clone, Copy, Debug, PartialEq, Eq, Structural)]
pub enum ScanPhase {
    /// Ports of the range are still being handed out to probes.
    Dispatching,
    /// Every port has been handed out; open ports are being collected.
    Draining,
}

/// The coordinator of one scan over one [`ScanRequest`].
pub struct Scanner {
    request: ScanRequest,
    next_port: u16,
    collected: Vec<u16>,
    phase: ScanPhase,
}

impl Scanner {
    /// The request this scan was built from.
    pub closed spec fn spec_request(self) -> ScanRequest {
        self.request
    }

    /// The next port [`Scanner::next_probe`] would hand out.
    pub closed spec fn spec_next_port(self) -> u16 {
        self.next_port
    }

    /// The open ports collected so far, in arrival order.
    pub closed spec fn collected(self) -> Seq<u16> {
        self.collected@
    }

    /// The scan's current phase.
    pub closed spec fn spec_phase(self) -> ScanPhase {
        self.phase
    }

    /// The ports handed out to probes so far: the ascending run from the
    /// request's start port up to, excluding, [`Scanner::spec_next_port`].
    pub open spec fn dispatched(self) -> Seq<u16> {
        Seq::new(
            (self.spec_next_port() - self.spec_request().spec_start_port()) as nat,
            |i: int| (self.spec_request().spec_start_port() + i) as u16,
        )
    }

    /// The scanner's invariant: the dispatch cursor stays inside the
    /// requested range, the collected ports are distinct and in range,
    /// nothing is collected before dispatching ends, and draining only
    /// begins once the whole range has been handed out.
    pub open spec fn wf(self) -> bool {
        &&& self.spec_request().wf()
        &&& self.spec_request().spec_start_port() <= self.spec_next_port()
            <= self.spec_request().spec_end_port()
        &&& self.collected().no_duplicates()
        &&& (forall|i: int|
            0 <= i < self.collected().len() ==> self.spec_request().spec_in_range(
                #[trigger] self.collected()[i],
            ))
        &&& (self.spec_phase() is Dispatching ==> self.collected().len() == 0)
        &&& (self.spec_phase() is Draining ==> self.spec_next_port()
            == self.spec_request().spec_end_port())
    }

    /// Starts a scan: nothing dispatched, nothing collected.
    pub fn new(request: ScanRequest) -> (r: Scanner)
        requires
            request.wf(),
        ensures
            r.wf(),
            r.spec_request() == request,
            r.spec_phase() is Dispatching,
            r.spec_next_port() == request.spec_start_port(),
            r.collected().len() == 0,
            r.dispatched().len() == 0,
    {
        Scanner {
            next_port: request.start_port(),
            request,
            collected: Vec::new(),
            phase: ScanPhase::Dispatching,
        }
    }

    /// Hands out the next port to probe, or `None` once every port of the
    /// range has been handed out — at which point the scan moves to the
    /// draining phase. Each port of the range is returned exactly once, in
    /// ascending order.
    pub fn next_probe(&mut self) -> (r: Option<u16>)
        requires
            old(self).wf(),
        ensures
            final(self).wf(),
            final(self).spec_request() == old(self).spec_request(),
            final(self).collected() == old(self).collected(),
            (old(self).spec_phase() is Dispatching && old(self).spec_next_port() < old(
                self,
            ).spec_request().spec_end_port()) ==> {
                &&& r == Some(old(self).spec_next_port())
                &&& final(self).spec_phase() is Dispatching
                &&& final(self).spec_next_port() == old(self).spec_next_port() + 1
                &&& final(self).dispatched() == old(self).dispatched().push(
                    old(self).spec_next_port(),
                )
            },
            (old(self).spec_phase() is Dispatching && old(self).spec_next_port() == old(
                self,
            ).spec_request().spec_end_port()) ==> {
                &&& r is None
                &&& final(self).spec_phase() is Draining
                &&& final(self).spec_next_port() == old(self).spec_next_port()
                &&& final(self).dispatched() == old(self).dispatched()
            },
            old(self).spec_phase() is Draining ==> r is None && *final(self) == *old(self),
    {
        match self.phase {
            ScanPhase::Dispatching => {
                if self.next_port < self.request.end_port() {
                    let p = self.next_port;
                    self.next_port = p + 1;
                    proof {
                        assert(self.dispatched() =~= old(self).dispatched().push(p));
                    }
                    Some(p)
                } else {
                    self.phase = ScanPhase::Draining;
                    None
                }
            },
            ScanPhase::Draining => None,
        }
    }

    /// Records one port received from the fan-in channel. Only a port that
    /// arrives while draining, lies in the requested range, and has not been
    /// recorded before is kept; anything else leaves the scanner unchanged,
    /// so the collected ports stay distinct and in range whatever a sender
    /// delivers.
    pub fn record_open(&mut self, port: u16)
        requires
            old(self).wf(),
        ensures
            final(self).wf(),
            final(self).spec_request() == old(self).spec_request(),
            final(self).spec_phase() == old(self).spec_phase(),
            final(self).spec_next_port() == old(self).spec_next_port(),
            final(self).collected() == if old(self).spec_phase() is Draining && old(
                self,
            ).spec_request().spec_in_range(port) && !old(self).collected().contains(port) {
                old(self).collected().push(port)
            } else {
                old(self).collected()
            },
    {
        match self.phase {
            ScanPhase::Draining => {
                if self.request.start_port() <= port && port < self.request.end_port()
                    && !contains_port(&self.collected, port) {
                    self.collected.push(port);
                }
            },
            ScanPhase::Dispatching => {},
        }
    }

    /// Ends the scan: the collected open ports are sorted ascending and
    /// returned as the scan's result. The result holds exactly the collected
    /// ports — distinct, each inside the requested range — and is empty
    /// whenever the requested range is empty.
    pub fn finish(self) -> (r: ScanResult)
        requires
            self.wf(),
        ensures
            r.wf(),
            sorted(r@),
            r@.no_duplicates(),
            strictly_ascending(r@),
            r@.to_multiset() == self.collected().to_multiset(),
            r@.len() == self.collected().len(),
            forall|p: u16| r@.contains(p) <==> self.collected().contains(p),
            forall|i: int|
                0 <= i < r@.len() ==> self.spec_request().spec_in_range(#[trigger] r@[i]),
            self.spec_request().spec_start_port() == self.spec_request().spec_end_port()
                ==> r@.len() == 0,
    {
        broadcast use group_to_multiset_ensures;

        let ports = sort_ports(&self.collected);
        proof {
            let c = self.collected@;
            assert forall|p: u16| ports@.contains(p) <==> c.contains(p) by {
                assert(ports@.contains(p) <==> ports@.to_multiset().count(p) > 0);
                assert(c.contains(p) <==> c.to_multiset().count(p) > 0);
            }
            c.lemma_multiset_has_no_duplicates();
            ports@.lemma_multiset_has_no_duplicates_conv();
            assert forall|i: int, j: int| 0 <= i < j < ports@.len() implies ports@[i]
                < ports@[j] by {
                assert(ports@[i] <= ports@[j]);
                assert(ports@[i] != ports@[j]);
            }
            assert forall|i: int| 0 <= i < ports@.len() implies self.spec_request().spec_in_range(
                #[trigger] ports@[i],
            ) by {
                assert(ports@.contains(ports@[i]));
                assert(c.contains(ports@[i]));
                let k = choose|k: int| 0 <= k < c.len() && c[k] == ports@[i];
                assert(self.spec_request().spec_in_range(c[k]));
            }
            if self.spec_request().spec_start_port() == self.spec_request().spec_end_port() {
                assert(c.len() == 0) by {
                    if c.len() > 0 {
                        assert(self.spec_request().spec_in_range(c[0]));
                    }
                }
            }
        }
        ScanResult { ports }
    }
}

/// The result of a completed scan: the open ports, each probed port listed
/// at most once, in strictly ascending order.
pub struct ScanResult {
    ports: Vec<u16>,
}

impl View for ScanResult {
    type V = Seq<u16>;

    closed spec fn view(&self) -> Seq<u16> {
        self.ports@
    }
}

impl ScanResult {
    /// Every result a [`Scanner`] hands out satisfies this: the ports are
    /// strictly ascending, hence also free of duplicates.
    pub open spec fn wf(self) -> bool {
        strictly_ascending(self@)
    }

    /// The open ports, ascending.
    pub fn ports(&self) -> (r: &Vec<u16>)
        ensures
            r@ == self@,
    {
        &self.ports
    }

    /// The open ports, ascending, surrendering the result.
    pub fn into_ports(self) -> (r: Vec<u16>)
        ensures
            r@ == self@,
    {
        self.ports
    }

    /// How many open ports were found.
    pub fn len(&self) -> (r: usize)
        ensures
            r == self@.len(),
    {
        self.ports.len()
    }
}

/// Law: every port of the requested range is probed exactly once. The
/// dispatched ports are free of duplicates and are precisely the ports from
/// the request's start port up to, excluding, the dispatch cursor; once the
/// scan is draining, they are precisely the requested range.
pub proof fn lemma_each_port_dispatched_once(s: Scanner)
    requires
        s.wf(),
    ensures
        s.dispatched().no_duplicates(),
        forall|p: u16|
            s.dispatched().contains(p) <==> s.spec_request().spec_start_port() <= p < s.spec_next_port(),
        s.spec_phase() is Draining ==> (forall|p: u16|
            s.dispatched().contains(p) <==> s.spec_request().spec_in_range(p)),
{
    let d = s.dispatched();
    let start = s.spec_request().spec_start_port();
    assert(forall|i: int| 0 <= i < d.len() ==> #[trigger] d[i] == start + i);
    assert forall|p: u16| s.dispatched().contains(p) <==> (start <= p
        < s.spec_next_port()) by {
        if start <= p < s.spec_next_port() {
            assert(d[p - start] == p);
        }
    }
}

/// Law: the final report does not depend on the order in which probes
/// completed. Any two ascending sequences holding the same collection of
/// ports are equal, so a scan's result is determined by *which* ports were
/// collected, never by *when*.
pub proof fn lemma_sorted_result_unique(s1: Seq<u16>, s2: Seq<u16>)
    requires
        sorted(s1),
        sorted(s2),
        s1.to_multiset() == s2.to_multiset(),
    ensures
        s1 == s2,
    decreases s1.len(),
{
    broadcast use group_to_multiset_ensures;

    assert(s1.len() == s1.to_multiset().len());
    assert(s2.len() == s2.to_multiset().len());
    if s1.len() == 0 {
        assert(s1 =~= s2);
    } else {
        assert(s1.contains(s1[0]));
        assert(s1.to_multiset().count(s1[0]) > 0);
        assert(s2.contains(s1[0]));
        let j = choose|j: int| 0 <= j < s2.len() && s2[j] == s1[0];
        assert(s2[0] <= s1[0]);
        assert(s2.contains(s2[0]));
        assert(s2.to_multiset().count(s2[0]) > 0);
        assert(s1.contains(s2[0]));
        let k = choose|k: int| 0 <= k < s1.len() && s1[k] == s2[0];
        assert(s1[0] <= s2[0]);
        assert(s1[0] == s2[0]);
        let t1 = s1.drop_first();
        let t2 = s2.drop_first();
        assert(s1.remove(0) =~= t1);
        assert(s2.remove(0) =~= t2);
        assert(s1.remove(0).to_multiset() == s1.to_multiset().remove(s1[0]));
        assert(s2.remove(0).to_multiset() == s2.to_multiset().remove(s2[0]));
        assert(t1.to_multiset() == t2.to_multiset());
        assert(sorted(t1)) by {
            assert(forall|i: int| 0 <= i < t1.len() ==> #[trigger] t1[i] == s1[i + 1]);
        }
        assert(sorted(t2)) by {
            assert(forall|i: int| 0 <= i < t2.len() ==> #[trigger] t2[i] == s2[i + 1]);
        }
        lemma_sorted_result_unique(t1, t2);
        assert forall|i: int| 0 <= i < s1.len() implies s1[i] == s2[i] by {
            if i > 0 {
                assert(t1[i - 1] == t2[i - 1]);
                assert(s1[i] == t1[i - 1]);
                assert(s2[i] == t2[i - 1]);
            }
        }
        assert(s1 =~= s2);
    }
}

/// Whether `port` occurs in `v`.
fn contains_port(v: &Vec<u16>, port: u16) -> (r: bool)
    ensures
        r == v@.contains(port),
{
    let mut i: usize = 0;
    while i < v.len()
        invariant
            i <= v@.len(),
            forall|k: int| 0 <= k < i ==> v@[k] != port,
        decreases v@.len() - i,
    {
        if v[i] == port {
            return true;
        }
        i += 1;
    }
    false
}

/// Inserts `port` into a sorted vector, keeping it sorted.
fn insert_sorted(v: &mut Vec<u16>, port: u16)
    requires
        sorted(old(v)@),
        old(v)@.len() < usize::MAX,
    ensures
        sorted(final(v)@),
        final(v)@.to_multiset() == old(v)@.to_multiset().insert(port),
        final(v)@.len() == old(v)@.len() + 1,
{
    let mut idx: usize = 0;
    while idx < v.len() && v[idx] <= port
        invariant
            idx <= v@.len(),
            sorted(v@),
            v == old(v),
            forall|i: int| 0 <= i < idx ==> v@[i] <= port,
        decreases v@.len() - idx,
    {
        idx += 1;
    }
    proof {
        old(v)@.insert_ensures(idx as int, port);
        broadcast use vstd::seq_lib::group_to_multiset_ensures;

    }
    v.insert(idx, port);
    assert(sorted(v@)) by {
        assert forall|i: int, j: int| 0 <= i < j < v@.len() implies v@[i] <= v@[j] by {
            if j < idx {
                assert(v@[i] == old(v)@[i] && v@[j] == old(v)@[j]);
            } else if i > idx {
                assert(v@[i] == old(v)@[i - 1] && v@[j] == old(v)@[j - 1]);
            } else if i < idx && j == idx {
                assert(v@[i] == old(v)@[i] && v@[j] == port);
            } else if i == idx {
                assert(v@[i] == port && v@[j] == old(v)@[j - 1] && old(v)@[j - 1] > port);
            } else {
                // i < idx < j: v[i] <= port < v[j]
                assert(v@[i] == old(v)@[i] && v@[j] == old(v)@[j - 1] && old(v)@[j - 1] > port);
            }
        }
    }
}

/// Sorts a vector of ports in ascending order; the result holds exactly the
/// same ports, with the same multiplicities, as the input.
fn sort_ports(v: &Vec<u16>) -> (r: Vec<u16>)
    ensures
        sorted(r@),
        r@.to_multiset() == v@.to_multiset(),
        r@.len() == v@.len(),
{
    broadcast use vstd::seq_lib::group_to_multiset_ensures;

    let mut r: Vec<u16> = Vec::new();
    let mut i: usize = 0;
    proof {
        assert(v@.subrange(0, 0) =~= Seq::<u16>::empty());
        assert(r@.to_multiset() =~= v@.subrange(0, 0).to_multiset());
    }
    while i < v.len()
        invariant
            i <= v@.len(),
            sorted(r@),
            r@.len() == i,
            r@.to_multiset() == v@.subrange(0, i as int).to_multiset(),
        decreases v@.len() - i,
    {
        let ghost prev = v@.subrange(0, i as int);
        insert_sorted(&mut r, v[i]);
        proof {
            assert(v@.subrange(0, i + 1) =~= prev.push(v@[i as int]));
            vstd::seq_lib::to_multiset_build::<u16>(prev, v@[i as int]);
        }
        i += 1;
    }
    proof {
        assert(v@.subrange(0, v@.len() as int) =~= v@);
    }
    r
}

} // verus!

