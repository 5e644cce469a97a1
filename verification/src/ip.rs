//! The network and transport protocols that captures are classified by.
use vstd::prelude::*;

use crate::wire::{ETHERTYPE_IPV4, ETHERTYPE_IPV6};

verus! {

/// IP protocol numbers of the transport protocols told apart.
pub const PROTOCOL_ICMP: u8 = 1;

pub const PROTOCOL_TCP: u8 = 6;

pub const PROTOCOL_UDP: u8 = 17;

pub const PROTOCOL_ICMPV6: u8 = 58;

#[derive(Clone, Copy, Debug, PartialEq, Eq, Structural)]
pub enum InternetProtocol {
    Ipv4,
    Ipv6,
}

impl InternetProtocol {
    /// The internet protocol of an EtherType; only IPv4 and IPv6 have one.
    pub fn from_ether_type(ether_type: u16) -> (r: InternetProtocol)
        requires
            ether_type == ETHERTYPE_IPV4 || ether_type == ETHERTYPE_IPV6,
        ensures
            r == (if ether_type == ETHERTYPE_IPV4 {
                InternetProtocol::Ipv4
            } else {
                InternetProtocol::Ipv6
            }),
    {
        if ether_type == ETHERTYPE_IPV4 {
            InternetProtocol::Ipv4
        } else {
            InternetProtocol::Ipv6
        }
    }
}

#[derive(Clone, Copy, Debug, PartialEq, Eq, Structural)]
pub enum TransportProtocol {
    Tcp,
    Udp,
    Icmp,
    IcmpV6,
    /// A protocol number without a variant of its own.
    Unknown(u8),
}

impl TransportProtocol {
    /// The transport protocol of an IP protocol number: TCP, UDP, ICMP and
    /// ICMPv6 by name, any other number kept as it is.
    pub fn from_next_header(number: u8) -> (r: TransportProtocol)
        ensures
            r == (if number == PROTOCOL_TCP {
                TransportProtocol::Tcp
            } else if number == PROTOCOL_UDP {
                TransportProtocol::Udp
            } else if number == PROTOCOL_ICMP {
                TransportProtocol::Icmp
            } else if number == PROTOCOL_ICMPV6 {
                TransportProtocol::IcmpV6
            } else {
                TransportProtocol::Unknown(number)
            }),
    {
        if number == PROTOCOL_TCP {
            TransportProtocol::Tcp
        } else if number == PROTOCOL_UDP {
            TransportProtocol::Udp
        } else if number == PROTOCOL_ICMP {
            TransportProtocol::Icmp
        } else if number == PROTOCOL_ICMPV6 {
            TransportProtocol::IcmpV6
        } else {
            TransportProtocol::Unknown(number)
        }
    }
}

} // verus!
