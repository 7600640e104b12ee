use crate::buffer::NeighbourDiscoveryUserOptionMessageBuffer;
use crate::bytes::le32;
use vstd::prelude::*;

verus! {

/// The address family the notification was raised for. Known codes keep a
/// named variant; any other code is carried through unchanged.
#[derive(Debug, Clone, Copy, PartialEq, Eq, Structural)]
#[non_exhaustive]
pub enum AddressFamily {
    Inet,
    Inet6,
    Other(u8),
}

/// The ICMP message type the neighbour discovery user option arrived in,
/// as defined in RFC 792 for ICMPv4 and RFC 4443 for ICMPv6. Codes outside
/// the named set are carried through unchanged.
#[derive(Debug, Clone, Copy, PartialEq, Eq, Structural)]
#[non_exhaustive]
pub enum NeighbourDiscoveryIcmpType {
    RouterSolicitation,
    RouterAdvertisement,
    NeighbourSolicitation,
    NeighbourAdvertisement,
    Redirect,
    Other(u8),
}

pub open spec fn family_from_byte(v: u8) -> AddressFamily {
    if v == 2 {
        AddressFamily::Inet
    } else if v == 10 {
        AddressFamily::Inet6
    } else {
        AddressFamily::Other(v)
    }
}

pub open spec fn family_to_byte(f: AddressFamily) -> u8 {
    match f {
        AddressFamily::Inet => 2,
        AddressFamily::Inet6 => 10,
        AddressFamily::Other(v) => v,
    }
}

/// A family value is canonical when an `Other` code does not shadow one of
/// the named variants; every value read from a byte is canonical.
pub open spec fn family_canonical(f: AddressFamily) -> bool {
    match f {
        AddressFamily::Other(v) => v != 2 && v != 10,
        _ => true,
    }
}

pub open spec fn icmp_type_from_byte(v: u8) -> NeighbourDiscoveryIcmpType {
    if v == 133 {
        NeighbourDiscoveryIcmpType::RouterSolicitation
    } else if v == 134 {
        NeighbourDiscoveryIcmpType::RouterAdvertisement
    } else if v == 135 {
        NeighbourDiscoveryIcmpType::NeighbourSolicitation
    } else if v == 136 {
        NeighbourDiscoveryIcmpType::NeighbourAdvertisement
    } else if v == 137 {
        NeighbourDiscoveryIcmpType::Redirect
    } else {
        NeighbourDiscoveryIcmpType::Other(v)
    }
}

pub open spec fn icmp_type_to_byte(t: NeighbourDiscoveryIcmpType) -> u8 {
    match t {
        NeighbourDiscoveryIcmpType::RouterSolicitation => 133,
        NeighbourDiscoveryIcmpType::RouterAdvertisement => 134,
        NeighbourDiscoveryIcmpType::NeighbourSolicitation => 135,
        NeighbourDiscoveryIcmpType::NeighbourAdvertisement => 136,
        NeighbourDiscoveryIcmpType::Redirect => 137,
        NeighbourDiscoveryIcmpType::Other(v) => v,
    }
}

/// An ICMP type value is canonical when an `Other` code does not shadow one
/// of the named variants; every value read from a byte is canonical.
pub open spec fn icmp_type_canonical(t: NeighbourDiscoveryIcmpType) -> bool {
    match t {
        NeighbourDiscoveryIcmpType::Other(v) => !(133 <= v <= 137),
        _ => true,
    }
}

/// Mapping a byte through the ICMP type enum and back returns the byte, for
/// every byte value, the catch-all variant included.
pub proof fn lemma_icmp_type_byte_roundtrip(v: u8)
    ensures
        icmp_type_to_byte(icmp_type_from_byte(v)) == v,
        icmp_type_canonical(icmp_type_from_byte(v)),
{
}

/// Mapping a canonical ICMP type value to its byte and back returns the
/// same value.
pub proof fn lemma_icmp_type_value_roundtrip(t: NeighbourDiscoveryIcmpType)
    requires
        icmp_type_canonical(t),
    ensures
        icmp_type_from_byte(icmp_type_to_byte(t)) == t,
{
}

/// Mapping a byte through the address family enum and back returns the
/// byte, for every byte value.
pub proof fn lemma_family_byte_roundtrip(v: u8)
    ensures
        family_to_byte(family_from_byte(v)) == v,
        family_canonical(family_from_byte(v)),
{
}

/// Mapping a canonical address family value to its byte and back returns
/// the same value.
pub proof fn lemma_family_value_roundtrip(f: AddressFamily)
    requires
        family_canonical(f),
    ensures
        family_from_byte(family_to_byte(f)) == f,
{
}

impl From<u8> for AddressFamily {
    fn from(value: u8) -> Self {
        if value == 2 {
            AddressFamily::Inet
        } else if value == 10 {
            AddressFamily::Inet6
        } else {
            AddressFamily::Other(value)
        }
    }
}

impl vstd::std_specs::convert::FromSpecImpl<u8> for AddressFamily {
    open spec fn obeys_from_spec() -> bool {
        true
    }

    open spec fn from_spec(value: u8) -> Self {
        family_from_byte(value)
    }
}

impl From<AddressFamily> for u8 {
    fn from(value: AddressFamily) -> Self {
        match value {
            AddressFamily::Inet => 2,
            AddressFamily::Inet6 => 10,
            AddressFamily::Other(v) => v,
        }
    }
}

impl vstd::std_specs::convert::FromSpecImpl<AddressFamily> for u8 {
    open spec fn obeys_from_spec() -> bool {
        true
    }

    open spec fn from_spec(value: AddressFamily) -> Self {
        family_to_byte(value)
    }
}

impl From<u8> for NeighbourDiscoveryIcmpType {
    fn from(value: u8) -> Self {
        if value == 133 {
            NeighbourDiscoveryIcmpType::RouterSolicitation
        } else if value == 134 {
            NeighbourDiscoveryIcmpType::RouterAdvertisement
        } else if value == 135 {
            NeighbourDiscoveryIcmpType::NeighbourSolicitation
        } else if value == 136 {
            NeighbourDiscoveryIcmpType::NeighbourAdvertisement
        } else if value == 137 {
            NeighbourDiscoveryIcmpType::Redirect
        } else {
            NeighbourDiscoveryIcmpType::Other(value)
        }
    }
}

impl vstd::std_specs::convert::FromSpecImpl<u8> for NeighbourDiscoveryIcmpType {
    open spec fn obeys_from_spec() -> bool {
        true
    }

    open spec fn from_spec(value: u8) -> Self {
        icmp_type_from_byte(value)
    }
}

impl From<NeighbourDiscoveryIcmpType> for u8 {
    fn from(value: NeighbourDiscoveryIcmpType) -> Self {
        match value {
            NeighbourDiscoveryIcmpType::RouterSolicitation => 133,
            NeighbourDiscoveryIcmpType::RouterAdvertisement => 134,
            NeighbourDiscoveryIcmpType::NeighbourSolicitation => 135,
            NeighbourDiscoveryIcmpType::NeighbourAdvertisement => 136,
            NeighbourDiscoveryIcmpType::Redirect => 137,
            NeighbourDiscoveryIcmpType::Other(v) => v,
        }
    }
}

impl vstd::std_specs::convert::FromSpecImpl<NeighbourDiscoveryIcmpType> for u8 {
    open spec fn obeys_from_spec() -> bool {
        true
    }

    open spec fn from_spec(value: NeighbourDiscoveryIcmpType) -> Self {
        icmp_type_to_byte(value)
    }
}

/// The validated header of a neighbour discovery user option message: where
/// the option arrived (address family and interface) and which ICMP message
/// carried it.
#[derive(Debug, Clone, Copy, PartialEq, Eq, Structural)]
#[non_exhaustive]
pub struct NeighbourDiscoveryUserOptionHeader {
    /// Address family of the neighbour discovery user option.
    pub family: AddressFamily,
    /// The index of this neighbour discovery user option's interface.
    pub interface_index: u32,
    /// The ICMP message type associated with this neighbour discovery user
    /// option.
    pub icmp_type: NeighbourDiscoveryIcmpType,
}

/// The header that the first sixteen bytes of a buffer describe.
pub open spec fn header_from_bytes(b: Seq<u8>) -> NeighbourDiscoveryUserOptionHeader {
    NeighbourDiscoveryUserOptionHeader {
        family: family_from_byte(b[0]),
        interface_index: le32(b[4], b[5], b[6], b[7]) as u32,
        icmp_type: icmp_type_from_byte(b[8]),
    }
}

pub open spec fn header_canonical(h: NeighbourDiscoveryUserOptionHeader) -> bool {
    family_canonical(h.family) && icmp_type_canonical(h.icmp_type)
}

impl NeighbourDiscoveryUserOptionHeader {
    pub fn new(
        family: AddressFamily,
        interface_index: u32,
        icmp_type: NeighbourDiscoveryIcmpType,
    ) -> (r: Self)
        ensures
            r == (NeighbourDiscoveryUserOptionHeader { family, interface_index, icmp_type }),
    {
        Self { family, interface_index, icmp_type }
    }

    /// Reads the header fields out of a validated buffer view. Every buffer
    /// yields a header: unknown family and ICMP type codes are carried by
    /// the catch-all variants.
    pub fn parse(buf: &NeighbourDiscoveryUserOptionMessageBuffer<'_>) -> (r: Self)
        ensures
            r == header_from_bytes(buf@),
            header_canonical(r),
    {
        let family: AddressFamily = buf.address_family().into();
        let interface_index = buf.interface_index();
        let icmp_type: NeighbourDiscoveryIcmpType = buf.icmp_type().into();
        proof {
            lemma_family_byte_roundtrip(buf@[0]);
            lemma_icmp_type_byte_roundtrip(buf@[8]);
        }
        Self { family, interface_index, icmp_type }
    }
}

} // verus!
