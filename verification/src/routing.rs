//! Route entries and the IP network (CIDR) representation they are built on.

use vstd::prelude::*;
use crate::ip::{IpAddress, IpFamily, Ipv4Address, Ipv6Address};

verus! {

/// An IP network: an address and a prefix length, of either family.
#[derive(Debug, Clone, Copy, PartialEq, Eq, Structural)]
#[allow(inconsistent_fields)]
pub enum IpNetwork {
    V4 { addr: Ipv4Address, prefix: u8 },
    V6 { addr: Ipv6Address, prefix: u8 },
}

impl IpNetwork {
    /// The family of the network.
    pub open spec fn family(self) -> IpFamily {
        match self {
            IpNetwork::V4 { .. } => IpFamily::V4,
            IpNetwork::V6 { .. } => IpFamily::V6,
        }
    }

    /// The network address, as a spec-level value.
    pub open spec fn spec_addr(self) -> IpAddress {
        match self {
            IpNetwork::V4 { addr, .. } => IpAddress::V4(addr),
            IpNetwork::V6 { addr, .. } => IpAddress::V6(addr),
        }
    }

    /// The prefix length, as a spec-level value.
    pub open spec fn spec_prefix(self) -> u8 {
        match self {
            IpNetwork::V4 { prefix, .. } => prefix,
            IpNetwork::V6 { prefix, .. } => prefix,
        }
    }

    /// The prefix length is within the family's bound: 32 for v4, 128 for v6.
    pub open spec fn prefix_in_bounds(self) -> bool {
        match self {
            IpNetwork::V4 { prefix, .. } => prefix <= 32,
            IpNetwork::V6 { prefix, .. } => prefix <= 128,
        }
    }

    /// The network contains the address: same family, and the address agrees
    /// with the network on the leading `prefix` bits.
    pub open spec fn contains_address(self, a: IpAddress) -> bool {
        match (self, a) {
            (IpNetwork::V4 { addr, prefix }, IpAddress::V4(x)) => prefix <= 32 && (prefix == 0
                || addr.bits >> ((32 - prefix) as u32) == x.bits >> ((32 - prefix) as u32)),
            (IpNetwork::V6 { addr, prefix }, IpAddress::V6(x)) => prefix <= 128 && (prefix == 0
                || addr.bits >> ((128 - prefix) as u128) == x.bits >> ((128 - prefix) as u128)),
            _ => false,
        }
    }

    /// Create a new IPv4 network.
    pub fn new_v4(addr: Ipv4Address, prefix: u8) -> (r: Self)
        ensures
            r == (IpNetwork::V4 { addr, prefix }),
    {
        IpNetwork::V4 { addr, prefix }
    }

    /// Create a new IPv6 network.
    pub fn new_v6(addr: Ipv6Address, prefix: u8) -> (r: Self)
        ensures
            r == (IpNetwork::V6 { addr, prefix }),
    {
        IpNetwork::V6 { addr, prefix }
    }

    /// Get the network address.
    pub fn addr(&self) -> (r: IpAddress)
        ensures
            r == self.spec_addr(),
    {
        match self {
            IpNetwork::V4 { addr, .. } => IpAddress::V4(*addr),
            IpNetwork::V6 { addr, .. } => IpAddress::V6(*addr),
        }
    }

    /// Get the prefix length.
    pub fn prefix(&self) -> (r: u8)
        ensures
            r == self.spec_prefix(),
    {
        match self {
            IpNetwork::V4 { prefix, .. } => *prefix,
            IpNetwork::V6 { prefix, .. } => *prefix,
        }
    }
}

/// A concrete route: destination network, gateway, optional output interface
/// and optional metric.
#[derive(Debug, Clone, PartialEq)]
pub struct RouteEntry {
    pub destination: IpNetwork,
    pub gateway: IpAddress,
    pub interface: Option<String>,
    pub metric: Option<u32>,
}

/// Mathematical view of a route entry.
pub ghost struct RouteEntryV {
    pub destination: IpNetwork,
    pub gateway: IpAddress,
    pub interface: Option<Seq<char>>,
    pub metric: Option<u32>,
}

impl View for RouteEntry {
    type V = RouteEntryV;

    open spec fn view(&self) -> RouteEntryV {
        RouteEntryV {
            destination: self.destination,
            gateway: self.gateway,
            interface: match self.interface {
                Some(s) => Some(s@),
                None => None,
            },
            metric: self.metric,
        }
    }
}

impl RouteEntryV {
    /// A well-formed route: destination and gateway share a family, the
    /// prefix is within the family's bound, and the metric is never zero.
    pub open spec fn valid(self) -> bool {
        &&& self.destination.family() == self.gateway.family()
        &&& self.destination.prefix_in_bounds()
        &&& (self.metric matches Some(m) ==> m != 0)
    }
}

} // verus!
