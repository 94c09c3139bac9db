//! The connection filter applied on every accept.
//!
//! A connection is admitted when its client address is not in any blocked
//! range, is inside some allowed range whenever whitelist mode is on, and
//! its accept port lies in some allowed port range and in no blocked one.

use vstd::prelude::*;

use crate::config::{IpFilter, IpRange, PortFilter, PortRange, Protocol};

verus! {

/// Whether the address lies in the inclusive range.
pub open spec fn in_ip_range(r: IpRange, ip: u32) -> bool {
    r.start <= ip <= r.end
}

/// Whether the address lies in some range of the list.
pub open spec fn ip_in_ranges(ranges: Seq<IpRange>, ip: u32) -> bool {
    exists|i: int| 0 <= i < ranges.len() && in_ip_range(ranges[i], ip)
}

/// Whether the port lies in the inclusive range.
pub open spec fn in_port_range(r: PortRange, port: u16) -> bool {
    r.start <= port <= r.end
}

/// Whether the port lies in some range of the list.
pub open spec fn port_in_ranges(ranges: Seq<PortRange>, port: u16) -> bool {
    exists|i: int| 0 <= i < ranges.len() && in_port_range(ranges[i], port)
}

fn ip_ranges_contain(ranges: &Vec<IpRange>, ip: u32) -> (r: bool)
    ensures
        r == ip_in_ranges(ranges@, ip),
{
    let mut i: usize = 0;
    while i < ranges.len()
        invariant
            i <= ranges@.len(),
            forall|j: int| 0 <= j < i ==> !in_ip_range(#[trigger] ranges@[j], ip),
        decreases ranges@.len() - i,
    {
        if ranges[i].start <= ip && ip <= ranges[i].end {
            return true;
        }
        i = i + 1;
    }
    false
}

fn port_ranges_contain(ranges: &Vec<PortRange>, port: u16) -> (r: bool)
    ensures
        r == port_in_ranges(ranges@, port),
{
    let mut i: usize = 0;
    while i < ranges.len()
        invariant
            i <= ranges@.len(),
            forall|j: int| 0 <= j < i ==> !in_port_range(#[trigger] ranges@[j], port),
        decreases ranges@.len() - i,
    {
        if ranges[i].start <= port && port <= ranges[i].end {
            return true;
        }
        i = i + 1;
    }
    false
}

/// Coarse filter over the transport protocols a listener serves.
pub struct ProtocolFilter {
    /// Protocols admitted; empty admits every protocol.
    pub allowed_protocols: Vec<Protocol>,
    /// Protocols rejected.
    pub blocked_protocols: Vec<Protocol>,
}

impl ProtocolFilter {
    /// A filter with no restriction.
    pub fn default() -> (r: Self)
        ensures
            r.allowed_protocols@.len() == 0,
            r.blocked_protocols@.len() == 0,
    {
        ProtocolFilter { allowed_protocols: Vec::new(), blocked_protocols: Vec::new() }
    }
}

/// Decides, for every accepted connection, whether it is served.
pub struct ConnectionFilter {
    /// Client address allow/block lists.
    pub ip_filter: IpFilter,
    /// Port allow/block lists.
    pub port_filter: PortFilter,
    /// Protocol restriction.
    pub protocol_filter: ProtocolFilter,
}

impl ConnectionFilter {
    /// Whether the filter admits a client at `ip` on accept port `port`.
    pub open spec fn accepts(&self, ip: u32, port: u16) -> bool {
        &&& !ip_in_ranges(self.ip_filter.blocked_ranges@, ip)
        &&& (self.ip_filter.whitelist_mode ==> ip_in_ranges(self.ip_filter.allowed_ranges@, ip))
        &&& !port_in_ranges(self.port_filter.blocked_ports@, port)
        &&& port_in_ranges(self.port_filter.allowed_ports@, port)
    }

    /// The default allow-all filter.
    pub fn new() -> (r: Self)
        ensures
            forall|ip: u32, port: u16| 1 <= port ==> #[trigger] r.accepts(ip, port),
    {
        let r = ConnectionFilter {
            ip_filter: IpFilter::default(),
            port_filter: PortFilter::default(),
            protocol_filter: ProtocolFilter::default(),
        };
        proof {
            assert forall|ip: u32, port: u16| 1 <= port implies #[trigger] r.accepts(
                ip,
                port,
            ) by {
                assert(in_port_range(r.port_filter.allowed_ports@[0], port));
            }
        }
        r
    }

    /// Applies the filter: blocked ranges reject, whitelist mode restricts
    /// to the allowed ranges, and the accept port must be allowed and not
    /// blocked.
    pub fn should_accept_connection(&self, client_ip: u32, port: u16) -> (r: bool)
        ensures
            r == self.accepts(client_ip, port),
    {
        if ip_ranges_contain(&self.ip_filter.blocked_ranges, client_ip) {
            return false;
        }
        if self.ip_filter.whitelist_mode && !ip_ranges_contain(
            &self.ip_filter.allowed_ranges,
            client_ip,
        ) {
            return false;
        }
        if port_ranges_contain(&self.port_filter.blocked_ports, port) {
            return false;
        }
        port_ranges_contain(&self.port_filter.allowed_ports, port)
    }
}

} // verus!
