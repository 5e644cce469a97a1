//! The byte layouts of the link and network headers that captures are
//! decoded from: Ethernet II, IPv4, IPv6 and ARP over Ethernet/IPv4.
//!
//! Multi-byte fields are big-endian. A header is readable when the buffer
//! holds at least its fixed part; a payload that the header announces
//! longer than the buffer is cut at the buffer's end.
use vstd::prelude::*;

verus! {

/// Length of an Ethernet II header: two MAC addresses and the EtherType.
pub const ETHERNET_HEADER_LEN: usize = 14;

/// Length of the fixed part of an IPv4 header.
pub const IPV4_MIN_HEADER_LEN: usize = 20;

/// Length of an IPv6 header.
pub const IPV6_HEADER_LEN: usize = 40;

/// Length of an ARP packet for IPv4 over Ethernet.
pub const ARP_PACKET_LEN: usize = 28;

/// EtherType of IPv4.
pub const ETHERTYPE_IPV4: u16 = 0x0800;

/// EtherType of ARP.
pub const ETHERTYPE_ARP: u16 = 0x0806;

/// EtherType of IPv6.
pub const ETHERTYPE_IPV6: u16 = 0x86DD;

/// The big-endian 16-bit value at `b[i]`, `b[i + 1]`.
pub open spec fn be16(b: Seq<u8>, i: int) -> u16 {
    (b[i] as int * 256 + b[i + 1] as int) as u16
}

pub open spec fn min_int(a: int, b: int) -> int {
    if a <= b { a } else { b }
}

/// The slice of `b` from `start` on, at most `len` bytes long; empty when
/// `start` is at or past the end.
pub open spec fn bounded_tail(b: Seq<u8>, start: int, len: int) -> Seq<u8> {
    if b.len() <= start {
        Seq::empty()
    } else {
        b.subrange(start, min_int(start + len, b.len() as int))
    }
}

// ---------------------------------------------------------------- Ethernet

pub open spec fn ethertype(frame: Seq<u8>) -> u16 {
    be16(frame, 12)
}

pub open spec fn ethernet_payload(frame: Seq<u8>) -> Seq<u8> {
    frame.subrange(ETHERNET_HEADER_LEN as int, frame.len() as int)
}

// ---------------------------------------------------------------- IPv4

/// The header length field: the low nibble of the first byte, in 32-bit words.
pub open spec fn ipv4_header_length(p: Seq<u8>) -> u8 {
    (p[0] % 16) as u8
}

pub open spec fn ipv4_total_length(p: Seq<u8>) -> u16 {
    be16(p, 2)
}

pub open spec fn ipv4_protocol(p: Seq<u8>) -> u8 {
    p[9]
}

pub open spec fn ipv4_source(p: Seq<u8>) -> Seq<u8> {
    p.subrange(12, 16)
}

pub open spec fn ipv4_destination(p: Seq<u8>) -> Seq<u8> {
    p.subrange(16, 20)
}

/// The IPv4 payload: it starts after the header (never before byte 20) and
/// runs for the total length minus the header length, when that is positive.
pub open spec fn ipv4_payload(p: Seq<u8>) -> Seq<u8> {
    let header_bytes = ipv4_header_length(p) as int * 4;
    let start = if header_bytes > 20 { header_bytes } else { 20 };
    let total = ipv4_total_length(p) as int;
    let len = if total > header_bytes { total - header_bytes } else { 0 };
    bounded_tail(p, start, len)
}

// ---------------------------------------------------------------- IPv6

pub open spec fn ipv6_payload_length(p: Seq<u8>) -> u16 {
    be16(p, 4)
}

pub open spec fn ipv6_next_header(p: Seq<u8>) -> u8 {
    p[6]
}

pub open spec fn ipv6_source(p: Seq<u8>) -> Seq<u8> {
    p.subrange(8, 24)
}

pub open spec fn ipv6_destination(p: Seq<u8>) -> Seq<u8> {
    p.subrange(24, 40)
}

/// The IPv6 payload: after the 40-byte header, as long as the payload length field says.
pub open spec fn ipv6_payload(p: Seq<u8>) -> Seq<u8> {
    bounded_tail(p, IPV6_HEADER_LEN as int, ipv6_payload_length(p) as int)
}

// ---------------------------------------------------------------- ARP

pub open spec fn arp_hardware_type(p: Seq<u8>) -> u16 {
    be16(p, 0)
}

pub open spec fn arp_protocol_type(p: Seq<u8>) -> u16 {
    be16(p, 2)
}

pub open spec fn arp_operation(p: Seq<u8>) -> u16 {
    be16(p, 6)
}

pub open spec fn arp_sender_hw_addr(p: Seq<u8>) -> Seq<u8> {
    p.subrange(8, 14)
}

pub open spec fn arp_sender_proto_addr(p: Seq<u8>) -> Seq<u8> {
    p.subrange(14, 18)
}

// ---------------------------------------------------------------- readers

pub fn read_be16(b: &[u8], i: usize) -> (r: u16)
    requires
        i + 1 < b@.len(),
    ensures
        r == be16(b@, i as int),
{
    (b[i] as u16) * 256 + (b[i + 1] as u16)
}

/// A copy of `b[start..end]`.
pub fn copy_range(b: &[u8], start: usize, end: usize) -> (r: Vec<u8>)
    requires
        start <= end <= b@.len(),
    ensures
        r@ == b@.subrange(start as int, end as int),
{
    let mut out: Vec<u8> = Vec::new();
    let mut i: usize = start;
    while i < end
        invariant
            start <= i <= end <= b@.len(),
            out@ == b@.subrange(start as int, i as int),
        decreases end - i,
    {
        out.push(b[i]);
        i = i + 1;
        assert(out@ =~= b@.subrange(start as int, i as int));
    }
    out
}

/// A copy of `b` from `start` on, at most `len` bytes.
pub fn copy_bounded_tail(b: &[u8], start: usize, len: usize) -> (r: Vec<u8>)
    ensures
        r@ == bounded_tail(b@, start as int, len as int),
{
    if b.len() <= start {
        assert(Seq::<u8>::empty() =~= bounded_tail(b@, start as int, len as int));
        Vec::new()
    } else {
        let end: usize = if len <= b.len() - start { start + len } else { b.len() };
        copy_range(b, start, end)
    }
}

pub fn read_array4(b: &[u8], i: usize) -> (r: [u8; 4])
    requires
        i + 4 <= b@.len(),
    ensures
        r@ == b@.subrange(i as int, i + 4),
{
    let r = [b[i], b[i + 1], b[i + 2], b[i + 3]];
    assert(r@ =~= b@.subrange(i as int, i + 4));
    r
}

pub fn read_array6(b: &[u8], i: usize) -> (r: [u8; 6])
    requires
        i + 6 <= b@.len(),
    ensures
        r@ == b@.subrange(i as int, i + 6),
{
    let r = [b[i], b[i + 1], b[i + 2], b[i + 3], b[i + 4], b[i + 5]];
    assert(r@ =~= b@.subrange(i as int, i + 6));
    r
}

pub fn read_array16(b: &[u8], i: usize) -> (r: [u8; 16])
    requires
        i + 16 <= b@.len(),
    ensures
        r@ == b@.subrange(i as int, i + 16),
{
    let r = [
        b[i], b[i + 1], b[i + 2], b[i + 3], b[i + 4], b[i + 5], b[i + 6], b[i + 7],
        b[i + 8], b[i + 9], b[i + 10], b[i + 11], b[i + 12], b[i + 13], b[i + 14], b[i + 15],
    ];
    assert(r@ =~= b@.subrange(i as int, i + 16));
    r
}

/// The payload of an IPv4 packet whose fixed header is present.
pub fn read_ipv4_payload(p: &[u8]) -> (r: Vec<u8>)
    requires
        p@.len() >= IPV4_MIN_HEADER_LEN,
    ensures
        r@ == ipv4_payload(p@),
{
    let header_bytes: usize = (p[0] % 16) as usize * 4;
    let start: usize = if header_bytes > 20 { header_bytes } else { 20 };
    let total: usize = read_be16(p, 2) as usize;
    let len: usize = if total > header_bytes { total - header_bytes } else { 0 };
    copy_bounded_tail(p, start, len)
}

/// The payload of an IPv6 packet whose header is present.
pub fn read_ipv6_payload(p: &[u8]) -> (r: Vec<u8>)
    requires
        p@.len() >= IPV6_HEADER_LEN,
    ensures
        r@ == ipv6_payload(p@),
{
    let len: usize = read_be16(p, 4) as usize;
    copy_bounded_tail(p, IPV6_HEADER_LEN, len)
}

} // verus!
