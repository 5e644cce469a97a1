//! A flat capture model: one capture per IP packet, ARP not decoded.
use vstd::prelude::*;

use crate::clock::{epoch_offset, system_now, EpochOffset};
use crate::network::ipv4_length_underflows;
use crate::wire::{
    copy_range, ethernet_payload, ethertype, ipv4_header_length, ipv4_payload, ipv4_protocol,
    ipv4_total_length, ipv6_next_header, ipv6_payload, ipv6_payload_length, read_be16,
    read_ipv4_payload, read_ipv6_payload, ETHERNET_HEADER_LEN, ETHERTYPE_IPV4, ETHERTYPE_IPV6,
    IPV4_MIN_HEADER_LEN, IPV6_HEADER_LEN,
};

pub use crate::ip::{InternetProtocol, TransportProtocol};
pub use crate::network::{DisplayIpAddr, DisplayMacAddr};

verus! {

/// Why a frame gave no capture.
#[derive(Clone, Copy, Debug, PartialEq, Eq, Structural)]
pub enum CaptureError {
    /// The frame carries an EtherType other than IPv4 and IPv6.
    UnsupportedProtocol(u16),
    MalformedIpv4,
    MalformedIpv6,
}

/// An IP packet seen on the wire.
#[derive(Debug)]
pub struct Capture {
    pub timestamp: EpochOffset,
    pub length: u16,
    /// The EtherType of the frame.
    pub internet_protocol: u16,
    pub transport_protocol: u8,
    pub payload: Vec<u8>,
}

pub struct CaptureView {
    pub timestamp: EpochOffset,
    pub length: u16,
    pub internet_protocol: u16,
    pub transport_protocol: u8,
    pub payload: Seq<u8>,
}

impl View for Capture {
    type V = CaptureView;

    open spec fn view(&self) -> CaptureView {
        CaptureView {
            timestamp: self.timestamp,
            length: self.length,
            internet_protocol: self.internet_protocol,
            transport_protocol: self.transport_protocol,
            payload: self.payload@,
        }
    }
}

pub open spec fn result_view(r: Result<Capture, CaptureError>) -> Result<CaptureView, CaptureError> {
    match r {
        Ok(c) => Ok(c@),
        Err(e) => Err(e),
    }
}

/// What an Ethernet frame decodes to, captured at `ts`.
pub open spec fn spec_parse_payload(frame: Seq<u8>, ts: EpochOffset) -> Result<CaptureView, CaptureError> {
    let p = ethernet_payload(frame);
    let et = ethertype(frame);
    if et == ETHERTYPE_IPV4 {
        if p.len() < IPV4_MIN_HEADER_LEN {
            Err(CaptureError::MalformedIpv4)
        } else {
            Ok(
                CaptureView {
                    timestamp: ts,
                    length: (ipv4_total_length(p) - ipv4_header_length(p)) as u16,
                    internet_protocol: ETHERTYPE_IPV4,
                    transport_protocol: ipv4_protocol(p),
                    payload: ipv4_payload(p),
                },
            )
        }
    } else if et == ETHERTYPE_IPV6 {
        if p.len() < IPV6_HEADER_LEN {
            Err(CaptureError::MalformedIpv6)
        } else {
            Ok(
                CaptureView {
                    timestamp: ts,
                    length: ipv6_payload_length(p),
                    internet_protocol: ETHERTYPE_IPV6,
                    transport_protocol: ipv6_next_header(p),
                    payload: ipv6_payload(p),
                },
            )
        }
    } else {
        Err(CaptureError::UnsupportedProtocol(et))
    }
}

/// Decodes the payload of an Ethernet frame captured at `timestamp`.
pub fn parse_payload_at(frame: &[u8], timestamp: EpochOffset) -> (r: Result<Capture, CaptureError>)
    requires
        frame@.len() >= ETHERNET_HEADER_LEN,
        !ipv4_length_underflows(frame@),
    ensures
        result_view(r) == spec_parse_payload(frame@, timestamp),
{
    let et = read_be16(frame, 12);
    let p = copy_range(frame, ETHERNET_HEADER_LEN, frame.len());
    let p = p.as_slice();
    if et == ETHERTYPE_IPV4 {
        if p.len() < IPV4_MIN_HEADER_LEN {
            Err(CaptureError::MalformedIpv4)
        } else {
            let total = read_be16(p, 2);
            let header_length = (p[0] % 16) as u16;
            Ok(
                Capture {
                    timestamp,
                    length: total - header_length,
                    internet_protocol: ETHERTYPE_IPV4,
                    transport_protocol: p[9],
                    payload: read_ipv4_payload(p),
                },
            )
        }
    } else if et == ETHERTYPE_IPV6 {
        if p.len() < IPV6_HEADER_LEN {
            Err(CaptureError::MalformedIpv6)
        } else {
            Ok(
                Capture {
                    timestamp,
                    length: read_be16(p, 4),
                    internet_protocol: ETHERTYPE_IPV6,
                    transport_protocol: p[6],
                    payload: read_ipv6_payload(p),
                },
            )
        }
    } else {
        Err(CaptureError::UnsupportedProtocol(et))
    }
}

/// Decodes the payload of an Ethernet frame, stamped with the current
/// system time.
pub fn parse_payload(frame: &[u8]) -> (r: Result<Capture, CaptureError>)
    requires
        frame@.len() >= ETHERNET_HEADER_LEN,
        !ipv4_length_underflows(frame@),
    ensures
        exists|ts: EpochOffset|
            #![trigger spec_parse_payload(frame@, ts)]
            ts.nanos < 1_000_000_000 && result_view(r) == spec_parse_payload(frame@, ts),
{
    let now = epoch_offset(system_now());
    let r = parse_payload_at(frame, now);
    assert(result_view(r) == spec_parse_payload(frame@, now));
    r
}

} // verus!
