//! Port-based acceptance of records: the in-process filter and the
//! capability that any predicate offers.
use vstd::prelude::*;

verus! {

/// The predicate handed to a filtered run failed to answer.
#[derive(Clone, Copy, Debug, PartialEq, Eq)]
pub struct FilterInvocationError;

/// A predicate over the source and destination ports of a record.
///
/// It may stand for an object outside this process, whose call can fail;
/// `admits` is the rule that an answer, when one comes, follows.
pub trait PortPredicate {
    spec fn admits(&self, src_port: u16, dst_port: u16) -> bool;

    fn accepts(&self, src_port: u16, dst_port: u16) -> (r: Result<bool, FilterInvocationError>)
        ensures
            r matches Ok(b) ==> b == self.admits(src_port, dst_port),
    ;
}

/// A filter on ports. The `ips` list is carried as configuration only: no
/// decision reads it.
#[derive(Clone, Debug, PartialEq, Eq)]
pub struct PktFilter {
    pub ports: Vec<u16>,
    pub ips: Vec<String>,
}

/// Whether `port` is one of `ports`.
pub open spec fn port_listed(ports: Seq<u16>, port: u16) -> bool {
    ports.contains(port)
}

/// Whether either port of a record is one of `ports`.
pub open spec fn ports_match(ports: Seq<u16>, src_port: u16, dst_port: u16) -> bool {
    port_listed(ports, src_port) || port_listed(ports, dst_port)
}

/// Exact membership of `port` in `ports`.
fn contains_port(ports: &Vec<u16>, port: u16) -> (r: bool)
    ensures
        r == port_listed(ports@, port),
{
    let mut i: usize = 0;
    while i < ports.len()
        invariant
            0 <= i <= ports@.len(),
            forall|j: int| 0 <= j < i ==> ports@[j] != port,
        decreases ports@.len() - i,
    {
        if ports[i] == port {
            assert(ports@[i as int] == port);
            return true;
        }
        i = i + 1;
    }
    false
}

impl PktFilter {
    /// The filter with the given ports and addresses.
    pub fn new(ports: Vec<u16>, ips: Vec<String>) -> (r: PktFilter)
        ensures
            r.ports@ == ports@,
            r.ips@ == ips@,
    {
        PktFilter { ports, ips }
    }

    /// Accepts a record when its source port or its destination port is
    /// one of the filter's ports.
    pub fn check_ports(&self, src_port: u16, dst_port: u16) -> (r: bool)
        ensures
            r == ports_match(self.ports@, src_port, dst_port),
    {
        contains_port(&self.ports, src_port) || contains_port(&self.ports, dst_port)
    }
}

impl PortPredicate for PktFilter {
    open spec fn admits(&self, src_port: u16, dst_port: u16) -> bool {
        ports_match(self.ports@, src_port, dst_port)
    }

    /// Never fails: the filter is in this process.
    fn accepts(&self, src_port: u16, dst_port: u16) -> (r: Result<bool, FilterInvocationError>)
        ensures
            r == Ok::<bool, FilterInvocationError>(ports_match(self.ports@, src_port, dst_port)),
    {
        Ok(self.check_ports(src_port, dst_port))
    }
}

} // verus!
