//! Plain-data model of IP addresses. The daemon's logic only compares
//! addresses, checks their family and carries them between components, so an
//! address is held as its numeric value: 32 bits for v4, 128 bits for v6.

use vstd::prelude::*;

verus! {

/// Address family of an IP address or network.
#[derive(Debug, Clone, Copy, PartialEq, Eq, Structural)]
pub enum IpFamily {
    V4,
    V6,
}

/// An IPv4 address as its 32-bit value, big-endian octet order.
#[derive(Debug, Clone, Copy, PartialEq, Eq, Hash, Structural)]
pub struct Ipv4Address {
    pub bits: u32,
}

/// An IPv6 address as its 128-bit value, big-endian segment order.
#[derive(Debug, Clone, Copy, PartialEq, Eq, Hash, Structural)]
pub struct Ipv6Address {
    pub bits: u128,
}

/// An IP address of either family.
#[derive(Debug, Clone, Copy, PartialEq, Eq, Hash, Structural)]
pub enum IpAddress {
    V4(Ipv4Address),
    V6(Ipv6Address),
}

/// The 32-bit value an IPv4 address with the given octets has.
pub open spec fn v4_bits(a: u8, b: u8, c: u8, d: u8) -> u32 {
    ((a as int) * 0x1000000 + (b as int) * 0x10000 + (c as int) * 0x100 + (d as int)) as u32
}

/// The 128-bit value an IPv6 address with the given segments has.
pub open spec fn v6_bits(s: [u16; 8]) -> u128 {
    ((s[0] as u128) << 112) | ((s[1] as u128) << 96) | ((s[2] as u128) << 80) | ((s[3] as u128)
        << 64) | ((s[4] as u128) << 48) | ((s[5] as u128) << 32) | ((s[6] as u128) << 16) | (
    s[7] as u128)
}

impl Ipv4Address {
    /// The address `a.b.c.d`.
    pub fn new(a: u8, b: u8, c: u8, d: u8) -> (r: Self)
        ensures
            r.bits == v4_bits(a, b, c, d),
    {
        Ipv4Address { bits: (a as u32) * 0x1000000 + (b as u32) * 0x10000 + (c as u32) * 0x100 + (
        d as u32) }
    }
}

impl Ipv6Address {
    /// The address with the given eight 16-bit segments.
    pub fn new(s0: u16, s1: u16, s2: u16, s3: u16, s4: u16, s5: u16, s6: u16, s7: u16) -> (r: Self)
        ensures
            r.bits == v6_bits([s0, s1, s2, s3, s4, s5, s6, s7]),
    {
        Ipv6Address {
            bits: ((s0 as u128) << 112) | ((s1 as u128) << 96) | ((s2 as u128) << 80) | ((
            s3 as u128) << 64) | ((s4 as u128) << 48) | ((s5 as u128) << 32) | ((s6 as u128)
                << 16) | (s7 as u128),
        }
    }
}

impl IpAddress {
    /// The family of the address.
    pub open spec fn family(self) -> IpFamily {
        match self {
            IpAddress::V4(_) => IpFamily::V4,
            IpAddress::V6(_) => IpFamily::V6,
        }
    }

    /// Whether the address is IPv4.
    pub fn is_v4(&self) -> (r: bool)
        ensures
            r == (self.family() == IpFamily::V4),
    {
        match self {
            IpAddress::V4(_) => true,
            IpAddress::V6(_) => false,
        }
    }

    /// The address `a.b.c.d`, as an `IpAddress`.
    pub fn v4(a: u8, b: u8, c: u8, d: u8) -> (r: Self)
        ensures
            r == IpAddress::V4(Ipv4Address { bits: v4_bits(a, b, c, d) }),
    {
        IpAddress::V4(Ipv4Address::new(a, b, c, d))
    }

    /// The IPv6 address with the given segments, as an `IpAddress`.
    pub fn v6(s0: u16, s1: u16, s2: u16, s3: u16, s4: u16, s5: u16, s6: u16, s7: u16) -> (r: Self)
        ensures
            r == IpAddress::V6(Ipv6Address { bits: v6_bits([s0, s1, s2, s3, s4, s5, s6, s7]) }),
    {
        IpAddress::V6(Ipv6Address::new(s0, s1, s2, s3, s4, s5, s6, s7))
    }
}

} // verus!
