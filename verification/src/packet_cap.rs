//! A capture model in which IP captures do not keep the destination and ARP
//! captures keep the protocol type of the ARP packet.
use vstd::prelude::*;

use crate::clock::{local_now, LocalTimestamp};
use crate::network::{
    self, ipv4_length_underflows, parse_arp, parse_ipv4, parse_ipv6, IpAddress,
};
use crate::wire::{
    arp_protocol_type, copy_range, ethernet_payload, read_be16, ARP_PACKET_LEN,
    ETHERNET_HEADER_LEN, ETHERTYPE_ARP, ETHERTYPE_IPV4, ETHERTYPE_IPV6, IPV4_MIN_HEADER_LEN,
    IPV6_HEADER_LEN,
};

pub use crate::net::Interface;
pub use crate::network::{CaptureError, DisplayIpAddr, DisplayMacAddr};

verus! {

/// An IP packet seen on the wire.
#[derive(Debug)]
pub struct IpCapture {
    pub timestamp: LocalTimestamp,
    pub source: IpAddress,
    pub ethernet_frame_type: u16,
    pub transport_protocol: u8,
    pub length: u16,
    pub payload: Vec<u8>,
}

pub struct IpCaptureView {
    pub timestamp: LocalTimestamp,
    pub source: Seq<u8>,
    pub ethernet_frame_type: u16,
    pub transport_protocol: u8,
    pub length: u16,
    pub payload: Seq<u8>,
}

impl View for IpCapture {
    type V = IpCaptureView;

    open spec fn view(&self) -> IpCaptureView {
        IpCaptureView {
            timestamp: self.timestamp,
            source: self.source@,
            ethernet_frame_type: self.ethernet_frame_type,
            transport_protocol: self.transport_protocol,
            length: self.length,
            payload: self.payload@,
        }
    }
}

/// An ARP packet seen on the wire; its frame type is the protocol type that
/// the ARP packet resolves.
#[derive(Debug)]
pub struct ArpCapture {
    pub timestamp: LocalTimestamp,
    pub source: IpAddress,
    pub source_mac: [u8; 6],
    pub ethernet_frame_type: u16,
    pub operation: u16,
    pub hardware_type: u16,
}

pub struct ArpCaptureView {
    pub timestamp: LocalTimestamp,
    pub source: Seq<u8>,
    pub source_mac: Seq<u8>,
    pub ethernet_frame_type: u16,
    pub operation: u16,
    pub hardware_type: u16,
}

impl View for ArpCapture {
    type V = ArpCaptureView;

    open spec fn view(&self) -> ArpCaptureView {
        ArpCaptureView {
            timestamp: self.timestamp,
            source: self.source@,
            source_mac: self.source_mac@,
            ethernet_frame_type: self.ethernet_frame_type,
            operation: self.operation,
            hardware_type: self.hardware_type,
        }
    }
}

#[derive(Debug)]
pub enum Capture {
    IP(IpCapture),
    ARP(ArpCapture),
}

pub enum CaptureView {
    IP(IpCaptureView),
    ARP(ArpCaptureView),
}

impl View for Capture {
    type V = CaptureView;

    open spec fn view(&self) -> CaptureView {
        match self {
            Capture::IP(c) => CaptureView::IP(c@),
            Capture::ARP(c) => CaptureView::ARP(c@),
        }
    }
}

pub open spec fn result_view(r: Result<Capture, CaptureError>) -> Result<CaptureView, CaptureError> {
    match r {
        Ok(c) => Ok(c@),
        Err(e) => Err(e),
    }
}

/// What an Ethernet frame decodes to, captured at `ts`: the decoding of
/// `network` at the same instant, without the IP destination, with the ARP
/// protocol type, and stamped with the local offset too.
pub open spec fn spec_parse_payload(frame: Seq<u8>, ts: LocalTimestamp) -> Result<CaptureView, CaptureError> {
    match network::spec_parse_payload(frame, ts.instant) {
        Ok(network::CaptureView::IP(c)) => Ok(
            CaptureView::IP(
                IpCaptureView {
                    timestamp: ts,
                    source: c.source,
                    ethernet_frame_type: c.ethernet_frame_type,
                    transport_protocol: c.transport_protocol,
                    length: c.length,
                    payload: c.payload,
                },
            ),
        ),
        Ok(network::CaptureView::ARP(a)) => Ok(
            CaptureView::ARP(
                ArpCaptureView {
                    timestamp: ts,
                    source: a.source,
                    source_mac: a.source_mac,
                    ethernet_frame_type: arp_protocol_type(ethernet_payload(frame)),
                    operation: a.operation,
                    hardware_type: a.hardware_type,
                },
            ),
        ),
        Err(e) => Err(e),
    }
}

fn without_destination(c: network::IpCapture, ts: LocalTimestamp) -> (r: IpCapture)
    ensures
        r@ == (IpCaptureView {
            timestamp: ts,
            source: c@.source,
            ethernet_frame_type: c@.ethernet_frame_type,
            transport_protocol: c@.transport_protocol,
            length: c@.length,
            payload: c@.payload,
        }),
{
    IpCapture {
        timestamp: ts,
        source: c.source,
        ethernet_frame_type: c.ethernet_frame_type,
        transport_protocol: c.transport_protocol,
        length: c.length,
        payload: c.payload,
    }
}

/// Decodes the payload of an Ethernet frame captured at `timestamp`.
pub fn parse_payload_at(frame: &[u8], timestamp: LocalTimestamp) -> (r: Result<Capture, CaptureError>)
    requires
        frame@.len() >= ETHERNET_HEADER_LEN,
        !ipv4_length_underflows(frame@),
    ensures
        result_view(r) == spec_parse_payload(frame@, timestamp),
{
    let et = read_be16(frame, 12);
    let p = copy_range(frame, ETHERNET_HEADER_LEN, frame.len());
    let p = p.as_slice();
    if et == ETHERTYPE_IPV4 {
        if p.len() < IPV4_MIN_HEADER_LEN {
            Err(CaptureError::MalformedIpv4)
        } else {
            Ok(Capture::IP(without_destination(parse_ipv4(p, timestamp.instant), timestamp)))
        }
    } else if et == ETHERTYPE_IPV6 {
        if p.len() < IPV6_HEADER_LEN {
            Err(CaptureError::MalformedIpv6)
        } else {
            Ok(Capture::IP(without_destination(parse_ipv6(p, timestamp.instant), timestamp)))
        }
    } else if et == ETHERTYPE_ARP {
        if p.len() < ARP_PACKET_LEN {
            Err(CaptureError::MalformedArp)
        } else {
            let a = parse_arp(p, timestamp.instant);
            let protocol_type = read_be16(p, 2);
            Ok(
                Capture::ARP(
                    ArpCapture {
                        timestamp,
                        source: a.source,
                        source_mac: a.source_mac,
                        ethernet_frame_type: protocol_type,
                        operation: a.operation,
                        hardware_type: a.hardware_type,
                    },
                ),
            )
        }
    } else {
        Err(CaptureError::UnsupportedProtocol(et))
    }
}

/// Decodes the payload of an Ethernet frame, stamped with the current local time.
pub fn parse_payload(frame: &[u8]) -> (r: Result<Capture, CaptureError>)
    requires
        frame@.len() >= ETHERNET_HEADER_LEN,
        !ipv4_length_underflows(frame@),
    ensures
        exists|ts: LocalTimestamp|
            #![trigger spec_parse_payload(frame@, ts)]
            ts.instant.secs >= 0 && ts.instant.nanos < 1_000_000_000 && -86_400 < ts.local_minus_utc
                < 86_400 && result_view(r) == spec_parse_payload(frame@, ts),
{
    let now = local_now();
    let r = parse_payload_at(frame, now);
    assert(result_view(r) == spec_parse_payload(frame@, now));
    r
}

} // verus!
