//! Decoding of captured Ethernet frames into IP and ARP captures, the
//! 16-byte address encoding used for storage, and the per-frame decision of
//! the capture loop.
use vstd::prelude::*;

use crate::clock::{utc_now, Timestamp};
use crate::text::{join, join_strings, mac_text, mac_to_string, string_views};
use crate::wire::{
    arp_hardware_type, arp_operation, arp_sender_hw_addr, arp_sender_proto_addr, copy_range,
    ethernet_payload, ethertype, ipv4_destination, ipv4_header_length, ipv4_payload, ipv4_protocol,
    ipv4_source, ipv4_total_length, ipv6_destination, ipv6_next_header, ipv6_payload,
    ipv6_payload_length, ipv6_source, read_array16, read_array4, read_array6, read_be16,
    read_ipv4_payload, read_ipv6_payload, ARP_PACKET_LEN, ETHERNET_HEADER_LEN, ETHERTYPE_ARP,
    ETHERTYPE_IPV4, ETHERTYPE_IPV6, IPV4_MIN_HEADER_LEN, IPV6_HEADER_LEN,
};

verus! {

// ================================================================ addresses

/// An IPv4 or IPv6 address, held as its octets.
#[derive(Clone, Copy, Debug, PartialEq, Eq)]
pub enum IpAddress {
    V4([u8; 4]),
    V6([u8; 16]),
}

impl View for IpAddress {
    /// The octets: four for IPv4, sixteen for IPv6.
    type V = Seq<u8>;

    open spec fn view(&self) -> Seq<u8> {
        match self {
            IpAddress::V4(a) => a@,
            IpAddress::V6(b) => b@,
        }
    }
}

/// The IPv4-mapped IPv6 form `::ffff:a.b.c.d` of an IPv4 address.
pub open spec fn v4_mapped(v4: Seq<u8>) -> Seq<u8> {
    seq![0u8, 0, 0, 0, 0, 0, 0, 0, 0, 0, 0xff, 0xff] + v4
}

/// Whether sixteen octets are an IPv4-mapped IPv6 address.
pub open spec fn is_v4_mapped(b: Seq<u8>) -> bool {
    &&& b.len() == 16
    &&& forall|i: int| 0 <= i < 10 ==> b[i] == 0
    &&& b[10] == 0xff
    &&& b[11] == 0xff
}

/// The storage form of an address: IPv6 octets as they are, IPv4 octets in
/// their IPv4-mapped IPv6 form.
pub open spec fn spec_ip_to_bytes(addr: Seq<u8>) -> Seq<u8> {
    if addr.len() == 4 {
        v4_mapped(addr)
    } else {
        addr
    }
}

/// The address that sixteen stored octets stand for: IPv4 when they are
/// IPv4-mapped, IPv6 otherwise.
pub open spec fn spec_bytes_to_ip(b: Seq<u8>) -> Seq<u8> {
    if is_v4_mapped(b) {
        b.subrange(12, 16)
    } else {
        b
    }
}

/// The 16-byte storage form of an address.
pub fn ip_to_bytes(addr: IpAddress) -> (r: [u8; 16])
    ensures
        r@ == spec_ip_to_bytes(addr@),
{
    match addr {
        IpAddress::V4(a) => {
            let r = [0, 0, 0, 0, 0, 0, 0, 0, 0, 0, 0xff, 0xff, a[0], a[1], a[2], a[3]];
            assert(r@ =~= v4_mapped(a@));
            r
        },
        IpAddress::V6(b) => b,
    }
}

/// The address that 16 stored bytes stand for; IPv4-mapped bytes come back
/// as the IPv4 address.
pub fn bytes_to_ip(bytes: &[u8; 16]) -> (r: IpAddress)
    ensures
        r@ == spec_bytes_to_ip(bytes@),
        r is V4 <==> is_v4_mapped(bytes@),
{
    let b = *bytes;
    let mut mapped = b[10] == 0xff && b[11] == 0xff;
    let mut i: usize = 0;
    while i < 10
        invariant
            0 <= i <= 10,
            b@ == bytes@,
            b@.len() == 16,
            mapped <==> (b[10] == 0xff && b[11] == 0xff && forall|j: int| 0 <= j < i ==> b@[j] == 0),
        decreases 10 - i,
    {
        if b[i] != 0 {
            mapped = false;
        }
        i = i + 1;
    }
    if mapped {
        let v4 = [b[12], b[13], b[14], b[15]];
        assert(v4@ =~= b@.subrange(12, 16));
        IpAddress::V4(v4)
    } else {
        IpAddress::V6(b)
    }
}

/// Storing the address that stored bytes stand for gives the same bytes back.
pub proof fn lemma_bytes_to_ip_to_bytes(bytes: [u8; 16])
    ensures
        spec_ip_to_bytes(spec_bytes_to_ip(bytes@)) == bytes@,
{
    let b = bytes@;
    if is_v4_mapped(b) {
        assert(v4_mapped(b.subrange(12, 16)) =~= b);
    }
}

/// Reading back the stored form of an address gives the address, for every
/// address but an IPv6 address that is itself IPv4-mapped, which comes back
/// as the IPv4 address it maps.
pub proof fn lemma_ip_to_bytes_to_ip(addr: IpAddress)
    requires
        !(addr is V6 && is_v4_mapped(addr@)),
    ensures
        spec_bytes_to_ip(spec_ip_to_bytes(addr@)) == addr@,
{
    if let IpAddress::V4(a) = addr {
        let m = v4_mapped(a@);
        assert(is_v4_mapped(m));
        assert(m.subrange(12, 16) =~= a@);
    }
}

// ================================================================ captures

/// An IPv4 or IPv6 packet seen on the wire.
#[derive(Debug)]
pub struct IpCapture {
    pub timestamp: Timestamp,
    pub source: IpAddress,
    pub dest: IpAddress,
    pub ethernet_frame_type: u16,
    pub transport_protocol: u8,
    pub length: u16,
    pub payload: Vec<u8>,
}

pub struct IpCaptureView {
    pub timestamp: Timestamp,
    pub source: Seq<u8>,
    pub dest: Seq<u8>,
    pub ethernet_frame_type: u16,
    pub transport_protocol: u8,
    pub length: u16,
    pub payload: Seq<u8>,
}

impl View for IpCapture {
    type V = IpCaptureView;

    open spec fn view(&self) -> IpCaptureView {
        IpCaptureView {
            timestamp: self.timestamp,
            source: self.source@,
            dest: self.dest@,
            ethernet_frame_type: self.ethernet_frame_type,
            transport_protocol: self.transport_protocol,
            length: self.length,
            payload: self.payload@,
        }
    }
}

/// An ARP packet seen on the wire.
#[derive(Debug)]
pub struct ArpCapture {
    pub timestamp: Timestamp,
    pub source: IpAddress,
    pub source_mac: [u8; 6],
    pub operation: u16,
    pub hardware_type: u16,
}

pub struct ArpCaptureView {
    pub timestamp: Timestamp,
    pub source: Seq<u8>,
    pub source_mac: Seq<u8>,
    pub operation: u16,
    pub hardware_type: u16,
}

impl View for ArpCapture {
    type V = ArpCaptureView;

    open spec fn view(&self) -> ArpCaptureView {
        ArpCaptureView {
            timestamp: self.timestamp,
            source: self.source@,
            source_mac: self.source_mac@,
            operation: self.operation,
            hardware_type: self.hardware_type,
        }
    }
}

#[derive(Debug)]
pub enum Capture {
    IP(IpCapture),
    ARP(ArpCapture),
}

pub enum CaptureView {
    IP(IpCaptureView),
    ARP(ArpCaptureView),
}

impl View for Capture {
    type V = CaptureView;

    open spec fn view(&self) -> CaptureView {
        match self {
            Capture::IP(c) => CaptureView::IP(c@),
            Capture::ARP(c) => CaptureView::ARP(c@),
        }
    }
}

/// Why a frame gave no capture.
#[derive(Clone, Copy, Debug, PartialEq, Eq, Structural)]
pub enum CaptureError {
    /// The frame carries an EtherType other than IPv4, IPv6 and ARP.
    UnsupportedProtocol(u16),
    MalformedIpv4,
    MalformedIpv6,
    MalformedArp,
}

pub open spec fn result_view(r: Result<Capture, CaptureError>) -> Result<CaptureView, CaptureError> {
    match r {
        Ok(c) => Ok(c@),
        Err(e) => Err(e),
    }
}

/// The IP capture of an IPv4 packet `p` whose fixed header is present. Its
/// length is the total length minus the header length field.
pub open spec fn ipv4_capture(p: Seq<u8>, ts: Timestamp) -> IpCaptureView {
    IpCaptureView {
        timestamp: ts,
        source: ipv4_source(p),
        dest: ipv4_destination(p),
        ethernet_frame_type: ETHERTYPE_IPV4,
        transport_protocol: ipv4_protocol(p),
        length: (ipv4_total_length(p) - ipv4_header_length(p)) as u16,
        payload: ipv4_payload(p),
    }
}

/// The IP capture of an IPv6 packet `p` whose header is present.
pub open spec fn ipv6_capture(p: Seq<u8>, ts: Timestamp) -> IpCaptureView {
    IpCaptureView {
        timestamp: ts,
        source: ipv6_source(p),
        dest: ipv6_destination(p),
        ethernet_frame_type: ETHERTYPE_IPV6,
        transport_protocol: ipv6_next_header(p),
        length: ipv6_payload_length(p),
        payload: ipv6_payload(p),
    }
}

/// The ARP capture of an ARP packet `p` that is complete.
pub open spec fn arp_capture(p: Seq<u8>, ts: Timestamp) -> ArpCaptureView {
    ArpCaptureView {
        timestamp: ts,
        source: arp_sender_proto_addr(p),
        source_mac: arp_sender_hw_addr(p),
        operation: arp_operation(p),
        hardware_type: arp_hardware_type(p),
    }
}

/// What an Ethernet frame decodes to, captured at `ts`.
pub open spec fn spec_parse_payload(frame: Seq<u8>, ts: Timestamp) -> Result<CaptureView, CaptureError> {
    let p = ethernet_payload(frame);
    let et = ethertype(frame);
    if et == ETHERTYPE_IPV4 {
        if p.len() < IPV4_MIN_HEADER_LEN {
            Err(CaptureError::MalformedIpv4)
        } else {
            Ok(CaptureView::IP(ipv4_capture(p, ts)))
        }
    } else if et == ETHERTYPE_IPV6 {
        if p.len() < IPV6_HEADER_LEN {
            Err(CaptureError::MalformedIpv6)
        } else {
            Ok(CaptureView::IP(ipv6_capture(p, ts)))
        }
    } else if et == ETHERTYPE_ARP {
        if p.len() < ARP_PACKET_LEN {
            Err(CaptureError::MalformedArp)
        } else {
            Ok(CaptureView::ARP(arp_capture(p, ts)))
        }
    } else {
        Err(CaptureError::UnsupportedProtocol(et))
    }
}

/// An Ethernet frame carrying an IPv4 header whose total length is below
/// its header length field: the capture length cannot be formed.
pub open spec fn ipv4_length_underflows(frame: Seq<u8>) -> bool {
    let p = ethernet_payload(frame);
    &&& frame.len() >= ETHERNET_HEADER_LEN
    &&& ethertype(frame) == ETHERTYPE_IPV4
    &&& p.len() >= IPV4_MIN_HEADER_LEN
    &&& ipv4_total_length(p) < ipv4_header_length(p)
}

/// Whether the capture length of an IPv4 frame cannot be formed; such a
/// frame cannot be decoded.
pub fn ipv4_length_would_underflow(frame: &[u8]) -> (r: bool)
    ensures
        r == ipv4_length_underflows(frame@),
{
    if frame.len() < ETHERNET_HEADER_LEN + IPV4_MIN_HEADER_LEN {
        return false;
    }
    if read_be16(frame, 12) != ETHERTYPE_IPV4 {
        return false;
    }
    let total = read_be16(frame, ETHERNET_HEADER_LEN + 2);
    let header_length = frame[ETHERNET_HEADER_LEN] % 16;
    proof {
        let p = ethernet_payload(frame@);
        assert(p[0] == frame@[14]);
        assert(p[2] == frame@[16] && p[3] == frame@[17]);
    }
    total < header_length as u16
}

pub(crate) fn parse_ipv4(p: &[u8], ts: Timestamp) -> (r: IpCapture)
    requires
        p@.len() >= IPV4_MIN_HEADER_LEN,
        ipv4_total_length(p@) >= ipv4_header_length(p@),
    ensures
        r@ == ipv4_capture(p@, ts),
{
    let total = read_be16(p, 2);
    let header_length = (p[0] % 16) as u16;
    IpCapture {
        timestamp: ts,
        source: IpAddress::V4(read_array4(p, 12)),
        dest: IpAddress::V4(read_array4(p, 16)),
        length: total - header_length,
        ethernet_frame_type: ETHERTYPE_IPV4,
        transport_protocol: p[9],
        payload: read_ipv4_payload(p),
    }
}

pub(crate) fn parse_ipv6(p: &[u8], ts: Timestamp) -> (r: IpCapture)
    requires
        p@.len() >= IPV6_HEADER_LEN,
    ensures
        r@ == ipv6_capture(p@, ts),
{
    IpCapture {
        timestamp: ts,
        source: IpAddress::V6(read_array16(p, 8)),
        dest: IpAddress::V6(read_array16(p, 24)),
        length: read_be16(p, 4),
        ethernet_frame_type: ETHERTYPE_IPV6,
        transport_protocol: p[6],
        payload: read_ipv6_payload(p),
    }
}

pub(crate) fn parse_arp(p: &[u8], ts: Timestamp) -> (r: ArpCapture)
    requires
        p@.len() >= ARP_PACKET_LEN,
    ensures
        r@ == arp_capture(p@, ts),
{
    ArpCapture {
        timestamp: ts,
        source: IpAddress::V4(read_array4(p, 14)),
        source_mac: read_array6(p, 8),
        operation: read_be16(p, 6),
        hardware_type: read_be16(p, 0),
    }
}

/// Decodes the payload of an Ethernet frame captured at `timestamp`.
pub fn parse_payload_at(frame: &[u8], timestamp: Timestamp) -> (r: Result<Capture, CaptureError>)
    requires
        frame@.len() >= ETHERNET_HEADER_LEN,
        !ipv4_length_underflows(frame@),
    ensures
        result_view(r) == spec_parse_payload(frame@, timestamp),
{
    let et = read_be16(frame, 12);
    let p = copy_range(frame, ETHERNET_HEADER_LEN, frame.len());
    let p = p.as_slice();
    if et == ETHERTYPE_IPV4 {
        if p.len() < IPV4_MIN_HEADER_LEN {
            Err(CaptureError::MalformedIpv4)
        } else {
            Ok(Capture::IP(parse_ipv4(p, timestamp)))
        }
    } else if et == ETHERTYPE_IPV6 {
        if p.len() < IPV6_HEADER_LEN {
            Err(CaptureError::MalformedIpv6)
        } else {
            Ok(Capture::IP(parse_ipv6(p, timestamp)))
        }
    } else if et == ETHERTYPE_ARP {
        if p.len() < ARP_PACKET_LEN {
            Err(CaptureError::MalformedArp)
        } else {
            Ok(Capture::ARP(parse_arp(p, timestamp)))
        }
    } else {
        Err(CaptureError::UnsupportedProtocol(et))
    }
}

/// Decodes the payload of an Ethernet frame, stamped with the current time.
pub fn parse_payload(frame: &[u8]) -> (r: Result<Capture, CaptureError>)
    requires
        frame@.len() >= ETHERNET_HEADER_LEN,
        !ipv4_length_underflows(frame@),
    ensures
        exists|ts: Timestamp|
            #![trigger spec_parse_payload(frame@, ts)]
            ts.secs >= 0 && ts.nanos < 1_000_000_000 && result_view(r) == spec_parse_payload(
                frame@,
                ts,
            ),
{
    let now = utc_now();
    let r = parse_payload_at(frame, now);
    assert(result_view(r) == spec_parse_payload(frame@, now));
    r
}

// ================================================================ capture loop

/// What the capture loop does with one frame read from the interface.
pub enum FrameAction {
    /// Nothing: the frame is shorter than an Ethernet header, or carries ARP.
    Skip,
    /// Print and hand the capture on to the database writer.
    Forward(IpCapture),
    /// Print the error and go on.
    Report(CaptureError),
}

/// Whether `a` is the action for a frame that decoded to `parsed`.
pub open spec fn action_for(a: FrameAction, parsed: Result<CaptureView, CaptureError>) -> bool {
    match parsed {
        Ok(CaptureView::IP(c)) => a matches FrameAction::Forward(f) && f@ == c,
        Ok(CaptureView::ARP(_)) => a is Skip,
        Err(e) => a matches FrameAction::Report(g) && g == e,
    }
}

/// Decides what the capture loop does with a frame read from the interface.
pub fn classify_frame(frame: &[u8]) -> (a: FrameAction)
    requires
        !ipv4_length_underflows(frame@),
    ensures
        frame@.len() < ETHERNET_HEADER_LEN ==> a is Skip,
        frame@.len() >= ETHERNET_HEADER_LEN ==> exists|ts: Timestamp|
            #![trigger spec_parse_payload(frame@, ts)]
            action_for(a, spec_parse_payload(frame@, ts)),
        a is Skip ==> frame@.len() < 14 || (frame@.len() >= 42 && frame@[12] == 0x08 && frame@[13]
            == 0x06),
        frame@.len() >= 34 && frame@[12] == 0x08 && frame@[13] == 0x00 ==> a is Forward,
        frame@.len() >= 54 && frame@[12] == 0x86 && frame@[13] == 0xDD ==> a is Forward,
{
    if frame.len() < ETHERNET_HEADER_LEN {
        return FrameAction::Skip;
    }
    let parsed = parse_payload(frame);
    let ghost ts = choose|ts: Timestamp|
        #![trigger spec_parse_payload(frame@, ts)]
        ts.secs >= 0 && ts.nanos < 1_000_000_000 && result_view(parsed) == spec_parse_payload(
            frame@,
            ts,
        );
    let a = match parsed {
        Ok(Capture::IP(c)) => FrameAction::Forward(c),
        Ok(Capture::ARP(_)) => FrameAction::Skip,
        Err(e) => FrameAction::Report(e),
    };
    assert(action_for(a, spec_parse_payload(frame@, ts)));
    proof {
        lemma_actions_follow_decoding(a, spec_parse_payload(frame@, ts));
        if a is Skip {
            lemma_arp_needs_arp_frame(frame@, ts);
        }
        if frame@.len() >= 34 && frame@[12] == 0x08 && frame@[13] == 0x00 {
            lemma_ipv4_frame_decoding(frame@, ts);
        }
        if frame@.len() >= 54 && frame@[12] == 0x86 && frame@[13] == 0xDD {
            lemma_ipv6_frame_decoding(frame@, ts);
        }
    }
    a
}

/// Whether the capture loop goes on after handing a capture to the
/// database writer.
#[derive(Clone, Copy, Debug, PartialEq, Eq, Structural)]
pub enum LoopControl {
    Continue,
    Stop,
}

/// The capture loop stops once the writer's channel no longer takes captures.
pub fn after_forward(delivered: bool) -> (c: LoopControl)
    ensures
        c == (if delivered {
            LoopControl::Continue
        } else {
            LoopControl::Stop
        }),
{
    if delivered {
        LoopControl::Continue
    } else {
        LoopControl::Stop
    }
}

// ================================================================ interfaces

/// A network interface as the system lists it: its addresses (with prefix
/// length) already written out as text.
pub struct NetInterface {
    pub index: u32,
    pub name: String,
    pub description: String,
    pub is_up: bool,
    pub ips: Vec<String>,
    pub mac: Option<[u8; 6]>,
    pub flags: u64,
}

/// An interface that is up and has at least one address.
pub open spec fn is_active(iface: NetInterface) -> bool {
    iface.is_up && iface.ips@.len() > 0
}

/// The positions, in order, of the interfaces that are up and have an address.
pub fn active_interface_indices(ifaces: &Vec<NetInterface>) -> (r: Vec<usize>)
    ensures
        forall|k: int| 0 <= k < r@.len() ==> r@[k] < ifaces@.len() && is_active(ifaces@[r@[k] as int]),
        forall|k1: int, k2: int| 0 <= k1 < k2 < r@.len() ==> r@[k1] < r@[k2],
        forall|j: int| 0 <= j < ifaces@.len() && is_active(#[trigger] ifaces@[j]) ==> r@.contains(j as usize),
        forall|k: int|
            #![trigger r@[k]]
            0 <= k < r@.len() ==> ifaces@[r@[k] as int].is_up && ifaces@[r@[k] as int].ips@.len() > 0,
        forall|j: int|
            0 <= j < ifaces@.len() && (#[trigger] ifaces@[j]).is_up && ifaces@[j].ips@.len() > 0
                ==> r@.contains(j as usize),
{
    let mut r: Vec<usize> = Vec::new();
    let mut i: usize = 0;
    while i < ifaces.len()
        invariant
            0 <= i <= ifaces@.len(),
            forall|k: int| 0 <= k < r@.len() ==> r@[k] < i && is_active(ifaces@[r@[k] as int]),
            forall|k1: int, k2: int| 0 <= k1 < k2 < r@.len() ==> r@[k1] < r@[k2],
            forall|j: int| 0 <= j < i && is_active(#[trigger] ifaces@[j]) ==> r@.contains(j as usize),
        decreases ifaces@.len() - i,
    {
        let ghost before = r@;
        let iface = &ifaces[i];
        if iface.is_up && iface.ips.len() > 0 {
            r.push(i);
            assert(r@[r@.len() - 1] == i);
        }
        assert forall|j: int| 0 <= j <= i && is_active(#[trigger] ifaces@[j]) implies r@.contains(
            j as usize,
        ) by {
            if j < i {
                let k = choose|k: int| 0 <= k < before.len() && before[k] == j as usize;
                assert(r@[k] == j as usize);
            } else {
                assert(r@[r@.len() - 1] == i);
            }
        }
        i = i + 1;
    }
    r
}

/// The position of the first interface called `name`.
pub fn find_interface(ifaces: &Vec<NetInterface>, name: &str) -> (r: Option<usize>)
    ensures
        match r {
            Some(i) => {
                &&& i < ifaces@.len()
                &&& ifaces@[i as int].name@ == name@
                &&& forall|j: int| 0 <= j < i ==> ifaces@[j].name@ != name@
            },
            None => forall|j: int| 0 <= j < ifaces@.len() ==> ifaces@[j].name@ != name@,
        },
{
    let wanted = String::from_str(name);
    let mut i: usize = 0;
    while i < ifaces.len()
        invariant
            0 <= i <= ifaces@.len(),
            wanted@ == name@,
            forall|j: int| 0 <= j < i ==> ifaces@[j].name@ != name@,
        decreases ifaces@.len() - i,
    {
        if ifaces[i].name == wanted {
            return Some(i);
        }
        i = i + 1;
    }
    None
}

/// The addresses of an interface, for display.
pub struct DisplayIpAddr(pub Vec<String>);

impl DisplayIpAddr {
    /// The addresses separated by a comma and a space.
    pub fn render(&self) -> (s: String)
        ensures
            s@ == join(string_views(self.0@), ", "@),
    {
        join_strings(&self.0, ", ")
    }
}

/// The MAC address of an interface, if it has one, for display.
pub struct DisplayMacAddr(pub Option<[u8; 6]>);

impl DisplayMacAddr {
    /// The address in `xx:xx:xx:xx:xx:xx` form, or `N/A`.
    pub fn render(&self) -> (s: String)
        ensures
            s@ == match self.0 {
                Some(m) => mac_text(m@),
                None => "N/A"@,
            },
    {
        match &self.0 {
            Some(m) => mac_to_string(m),
            None => String::from_str("N/A"),
        }
    }
}

/// A device seen on the network: its hardware and network addresses.
pub struct Device {
    pub mac: Option<[u8; 6]>,
    pub ipv4: Option<[u8; 4]>,
    pub ipv6: Option<[u8; 16]>,
}

/// Every unique IP address has a record of every other device it has
/// communicated with.
pub struct IpRecord {
    pub device: Device,
    pub friends: Vec<Device>,
}

// ================================================================ laws

/// IPv4 frames decode to the fields of their header, read at their RFC 791
/// offsets in the frame (the IP header starts at byte 14): addresses at
/// 26..30 and 30..34, protocol at 23, total length at 16..18, header length
/// in the low nibble of byte 14; the payload follows the header.
pub proof fn lemma_ipv4_frame_decoding(frame: Seq<u8>, ts: Timestamp)
    requires
        frame.len() >= 34,
        frame[12] == 0x08,
        frame[13] == 0x00,
    ensures
        ({
            let total = frame[16] as int * 256 + frame[17] as int;
            let words = frame[14] as int % 16;
            let start = 14 + if words * 4 > 20 { words * 4 } else { 20 };
            let len = if total > words * 4 { total - words * 4 } else { 0 };
            let end = if start + len < frame.len() { start + len } else { frame.len() as int };
            spec_parse_payload(frame, ts) matches Ok(CaptureView::IP(c)) && {
                &&& c.timestamp == ts
                &&& c.source == frame.subrange(26, 30)
                &&& c.dest == frame.subrange(30, 34)
                &&& c.ethernet_frame_type == 0x0800
                &&& c.transport_protocol == frame[23]
                &&& (total >= words ==> c.length == total - words)
                &&& c.payload == if start >= frame.len() {
                    Seq::<u8>::empty()
                } else {
                    frame.subrange(start, end)
                }
            }
        }),
{
    let p = ethernet_payload(frame);
    assert(p.subrange(12, 16) =~= frame.subrange(26, 30));
    assert(p.subrange(16, 20) =~= frame.subrange(30, 34));
    assert(p[0] == frame[14] && p[2] == frame[16] && p[3] == frame[17] && p[9] == frame[23]);
    let words = frame[14] as int % 16;
    let start = if words * 4 > 20 { words * 4 } else { 20 };
    let total = frame[16] as int * 256 + frame[17] as int;
    let len = if total > words * 4 { total - words * 4 } else { 0 };
    let e = if start + len < p.len() { start + len } else { p.len() as int };
    if start < p.len() {
        assert(p.subrange(start, e) =~= frame.subrange(start + 14, e + 14));
    }
}

/// IPv6 frames decode to the fields of their header, read at their RFC 8200
/// offsets in the frame (the IP header starts at byte 14): source address
/// at 22..38, destination address at 38..54, next header at 20, payload
/// length at 18..20; the payload follows the 40-byte header.
pub proof fn lemma_ipv6_frame_decoding(frame: Seq<u8>, ts: Timestamp)
    requires
        frame.len() >= 54,
        frame[12] == 0x86,
        frame[13] == 0xDD,
    ensures
        ({
            let len = frame[18] as int * 256 + frame[19] as int;
            let end = if 54 + len < frame.len() { 54 + len } else { frame.len() as int };
            spec_parse_payload(frame, ts) matches Ok(CaptureView::IP(c)) && {
                &&& c.timestamp == ts
                &&& c.source == frame.subrange(22, 38)
                &&& c.dest == frame.subrange(38, 54)
                &&& c.ethernet_frame_type == 0x86DD
                &&& c.transport_protocol == frame[20]
                &&& c.length == len
                &&& c.payload == frame.subrange(54, end)
            }
        }),
{
    let p = ethernet_payload(frame);
    assert(p.subrange(8, 24) =~= frame.subrange(22, 38));
    assert(p.subrange(24, 40) =~= frame.subrange(38, 54));
    assert(p[4] == frame[18] && p[5] == frame[19] && p[6] == frame[20]);
    let len = frame[18] as int * 256 + frame[19] as int;
    let e = if 40 + len < p.len() { 40 + len } else { p.len() as int };
    if p.len() <= 40 {
        assert(frame.subrange(54, 54) =~= Seq::<u8>::empty());
    } else {
        assert(p.subrange(40, e) =~= frame.subrange(54, e + 14));
    }
}

/// ARP frames decode to the sender's addresses and the operation and
/// hardware type of the packet, read at their RFC 826 offsets in the frame.
pub proof fn lemma_arp_frame_decoding(frame: Seq<u8>, ts: Timestamp)
    requires
        frame.len() >= 42,
        frame[12] == 0x08,
        frame[13] == 0x06,
    ensures
        spec_parse_payload(frame, ts) matches Ok(CaptureView::ARP(a)) && {
            &&& a.timestamp == ts
            &&& a.source == frame.subrange(28, 32)
            &&& a.source_mac == frame.subrange(22, 28)
            &&& a.operation == frame[20] as int * 256 + frame[21] as int
            &&& a.hardware_type == frame[14] as int * 256 + frame[15] as int
        },
{
    let p = ethernet_payload(frame);
    assert(p.subrange(14, 18) =~= frame.subrange(28, 32));
    assert(p.subrange(8, 14) =~= frame.subrange(22, 28));
    assert(p[0] == frame[14] && p[1] == frame[15] && p[6] == frame[20] && p[7] == frame[21]);
}

/// Only complete ARP packets decode to ARP captures.
pub proof fn lemma_arp_needs_arp_frame(frame: Seq<u8>, ts: Timestamp)
    requires
        frame.len() >= 14,
        spec_parse_payload(frame, ts) is Ok,
        spec_parse_payload(frame, ts)->Ok_0 is ARP,
    ensures
        frame.len() >= 42 && frame[12] == 0x08 && frame[13] == 0x06,
{
}

/// Frames too short for their header are malformed, and frames of any other
/// EtherType are refused with that EtherType.
pub proof fn lemma_frame_decoding_errors(frame: Seq<u8>, ts: Timestamp)
    requires
        frame.len() >= 14,
    ensures
        ({
            let et = frame[12] as int * 256 + frame[13] as int;
            &&& et == 0x0800 && frame.len() < 34 ==> spec_parse_payload(frame, ts) == Err::<
                CaptureView,
                CaptureError,
            >(CaptureError::MalformedIpv4)
            &&& et == 0x86DD && frame.len() < 54 ==> spec_parse_payload(frame, ts) == Err::<
                CaptureView,
                CaptureError,
            >(CaptureError::MalformedIpv6)
            &&& et == 0x0806 && frame.len() < 42 ==> spec_parse_payload(frame, ts) == Err::<
                CaptureView,
                CaptureError,
            >(CaptureError::MalformedArp)
            &&& et != 0x0800 && et != 0x86DD && et != 0x0806 ==> spec_parse_payload(frame, ts)
                == Err::<CaptureView, CaptureError>(CaptureError::UnsupportedProtocol(et as u16))
        }),
{
}

/// The capture loop forwards exactly the IP captures, each unchanged,
/// skips exactly the ARP captures and reports exactly the errors.
pub proof fn lemma_actions_follow_decoding(a: FrameAction, parsed: Result<CaptureView, CaptureError>)
    requires
        action_for(a, parsed),
    ensures
        a is Skip <==> parsed matches Ok(CaptureView::ARP(_)),
        a matches FrameAction::Forward(f) ==> parsed == Ok::<CaptureView, CaptureError>(
            CaptureView::IP(f@),
        ),
        a matches FrameAction::Report(e) ==> parsed == Err::<CaptureView, CaptureError>(e),
        parsed matches Ok(CaptureView::IP(c)) ==> (a matches FrameAction::Forward(f) && f@ == c),
{
}

/// An IPv6 address is stored as its own sixteen octets, in order; an IPv4
/// address as ten zero bytes, two 0xff bytes, then its four octets.
pub proof fn lemma_stored_address_bytes(addr: IpAddress)
    ensures
        addr is V6 ==> spec_ip_to_bytes(addr@) == addr@,
        addr is V4 ==> {
            let b = spec_ip_to_bytes(addr@);
            &&& b.len() == 16
            &&& forall|i: int| 0 <= i < 10 ==> b[i] == 0
            &&& b[10] == 0xff && b[11] == 0xff
            &&& b.subrange(12, 16) == addr@
        },
{
    if let IpAddress::V4(a) = addr {
        assert(spec_ip_to_bytes(addr@).subrange(12, 16) =~= a@);
    }
}

/// Stored bytes that are not an IPv4-mapped address stand for the IPv6
/// address with exactly those octets; mapped bytes stand for the IPv4
/// address of their last four.
pub proof fn lemma_read_address_bytes(bytes: [u8; 16])
    ensures
        !((forall|i: int| 0 <= i < 10 ==> bytes@[i] == 0) && bytes@[10] == 0xff && bytes@[11]
            == 0xff) ==> spec_bytes_to_ip(bytes@) == bytes@,
        ((forall|i: int| 0 <= i < 10 ==> bytes@[i] == 0) && bytes@[10] == 0xff && bytes@[11]
            == 0xff) ==> spec_bytes_to_ip(bytes@) == bytes@.subrange(12, 16),
{
}

/// Whether an interface is listed depends on whether it is up and whether
/// it has an address, and on nothing else: not its MAC address, name,
/// index, description or flags.
pub proof fn lemma_activity_is_up_with_address(a: NetInterface, b: NetInterface)
    ensures
        is_active(a) ==> a.is_up && a.ips@.len() > 0,
        a.is_up && a.ips@.len() > 0 ==> is_active(a),
        a.is_up == b.is_up && a.ips@.len() == b.ips@.len() ==> is_active(a) == is_active(b),
{
}

} // verus!
