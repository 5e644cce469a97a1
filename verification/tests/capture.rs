use netcap::clock::{EpochOffset, LocalTimestamp, Timestamp};
use netcap::network::{
    after_forward, LoopControl, bytes_to_ip, classify_frame, ip_to_bytes, ipv4_length_would_underflow, parse_payload,
    parse_payload_at, Capture, CaptureError, FrameAction, IpAddress,
};
use netcap::{packet_cap, pkt_cap};

fn ethernet(ethertype: u16, payload: &[u8]) -> Vec<u8> {
    let mut f = vec![0xaa, 0xbb, 0xcc, 0xdd, 0xee, 0xff, 0x11, 0x22, 0x33, 0x44, 0x55, 0x66];
    f.push((ethertype >> 8) as u8);
    f.push((ethertype & 0xff) as u8);
    f.extend_from_slice(payload);
    f
}

/// An IPv4 packet: header length 5 words, the given total length, protocol,
/// 10.0.0.1 -> 10.0.0.2, followed by `extra` bytes 0, 1, 2, ...
fn ipv4_packet(total_length: u16, protocol: u8, extra: usize) -> Vec<u8> {
    let mut p = vec![
        0x45, 0x00, (total_length >> 8) as u8, (total_length & 0xff) as u8, 0, 0, 0, 0, 64,
        protocol, 0, 0, 10, 0, 0, 1, 10, 0, 0, 2,
    ];
    for i in 0..extra {
        p.push(i as u8);
    }
    p
}

fn ipv6_packet(payload_length: u16, next_header: u8, extra: usize) -> Vec<u8> {
    let mut p = vec![0x60, 0, 0, 0, (payload_length >> 8) as u8, (payload_length & 0xff) as u8, next_header, 64];
    let mut src = [0u8; 16];
    src[0] = 0xfe;
    src[1] = 0x80;
    src[15] = 1;
    let mut dst = [0u8; 16];
    dst[0] = 0xfe;
    dst[1] = 0x80;
    dst[15] = 2;
    p.extend_from_slice(&src);
    p.extend_from_slice(&dst);
    for i in 0..extra {
        p.push(100 + i as u8);
    }
    p
}

fn arp_packet() -> Vec<u8> {
    vec![
        0, 1, 8, 0, 6, 4, 0, 2, 1, 2, 3, 4, 5, 6, 192, 168, 1, 7, 0, 0, 0, 0, 0, 0, 192, 168, 1, 1,
    ]
}

const TS: Timestamp = Timestamp { secs: 1_700_000_000, nanos: 123 };

#[test]
fn ipv4_frame_decodes_to_ip_capture() {
    let frame = ethernet(0x0800, &ipv4_packet(28, 6, 8));
    match parse_payload_at(&frame, TS) {
        Ok(Capture::IP(c)) => {
            assert_eq!(c.timestamp, TS);
            assert_eq!(c.source, IpAddress::V4([10, 0, 0, 1]));
            assert_eq!(c.dest, IpAddress::V4([10, 0, 0, 2]));
            assert_eq!(c.ethernet_frame_type, 0x0800);
            assert_eq!(c.transport_protocol, 6);
            // total length minus the header length field (in words)
            assert_eq!(c.length, 23);
            assert_eq!(c.payload, vec![0, 1, 2, 3, 4, 5, 6, 7]);
        }
        _ => panic!("expected an IP capture"),
    }
}

#[test]
fn ipv4_payload_is_cut_by_total_length() {
    let frame = ethernet(0x0800, &ipv4_packet(24, 17, 10));
    match parse_payload_at(&frame, TS) {
        Ok(Capture::IP(c)) => assert_eq!(c.payload, vec![0, 1, 2, 3]),
        _ => panic!("expected an IP capture"),
    }
}

#[test]
fn ipv4_payload_is_cut_by_buffer_end() {
    let frame = ethernet(0x0800, &ipv4_packet(1000, 17, 3));
    match parse_payload_at(&frame, TS) {
        Ok(Capture::IP(c)) => {
            assert_eq!(c.payload, vec![0, 1, 2]);
            assert_eq!(c.length, 995);
        }
        _ => panic!("expected an IP capture"),
    }
}

#[test]
fn ipv4_payload_starts_after_options() {
    let mut p = ipv4_packet(32, 6, 12);
    p[0] = 0x46; // six words: four bytes of options
    let frame = ethernet(0x0800, &p);
    match parse_payload_at(&frame, TS) {
        Ok(Capture::IP(c)) => {
            assert_eq!(c.payload, vec![4, 5, 6, 7, 8, 9, 10, 11]);
            assert_eq!(c.length, 26);
        }
        _ => panic!("expected an IP capture"),
    }
}

#[test]
fn ipv6_frame_decodes_to_ip_capture() {
    let frame = ethernet(0x86DD, &ipv6_packet(3, 58, 5));
    match parse_payload_at(&frame, TS) {
        Ok(Capture::IP(c)) => {
            let mut src = [0u8; 16];
            src[0] = 0xfe;
            src[1] = 0x80;
            src[15] = 1;
            assert_eq!(c.source, IpAddress::V6(src));
            assert_eq!(c.ethernet_frame_type, 0x86DD);
            assert_eq!(c.transport_protocol, 58);
            assert_eq!(c.length, 3);
            assert_eq!(c.payload, vec![100, 101, 102]);
        }
        _ => panic!("expected an IP capture"),
    }
}

#[test]
fn arp_frame_decodes_to_arp_capture() {
    let frame = ethernet(0x0806, &arp_packet());
    match parse_payload_at(&frame, TS) {
        Ok(Capture::ARP(a)) => {
            assert_eq!(a.source, IpAddress::V4([192, 168, 1, 7]));
            assert_eq!(a.source_mac, [1, 2, 3, 4, 5, 6]);
            assert_eq!(a.operation, 2);
            assert_eq!(a.hardware_type, 1);
            assert_eq!(a.timestamp, TS);
        }
        _ => panic!("expected an ARP capture"),
    }
}

#[test]
fn short_packets_are_malformed() {
    let v4 = ethernet(0x0800, &ipv4_packet(20, 6, 0)[..19]);
    assert!(matches!(parse_payload_at(&v4, TS), Err(CaptureError::MalformedIpv4)));
    let v6 = ethernet(0x86DD, &ipv6_packet(0, 6, 0)[..39]);
    assert!(matches!(parse_payload_at(&v6, TS), Err(CaptureError::MalformedIpv6)));
    let arp = ethernet(0x0806, &arp_packet()[..27]);
    assert!(matches!(parse_payload_at(&arp, TS), Err(CaptureError::MalformedArp)));
}

#[test]
fn other_ethertypes_are_unsupported() {
    let frame = ethernet(0x88cc, &[1, 2, 3]);
    assert!(matches!(
        parse_payload_at(&frame, TS),
        Err(CaptureError::UnsupportedProtocol(0x88cc))
    ));
}

#[test]
fn length_underflow_is_detected() {
    let ok = ethernet(0x0800, &ipv4_packet(20, 6, 0));
    assert!(!ipv4_length_would_underflow(&ok));
    let bad = ethernet(0x0800, &ipv4_packet(3, 6, 0));
    assert!(ipv4_length_would_underflow(&bad));
    let not_ip = ethernet(0x0806, &ipv4_packet(3, 6, 8));
    assert!(!ipv4_length_would_underflow(&not_ip));
    assert!(!ipv4_length_would_underflow(&[0u8; 10]));
}

#[test]
fn parse_payload_stamps_current_time() {
    let frame = ethernet(0x0800, &ipv4_packet(20, 6, 0));
    match parse_payload(&frame) {
        Ok(Capture::IP(c)) => {
            // later than 2020-01-01
            assert!(c.timestamp.secs > 1_577_836_800);
            assert!(c.timestamp.nanos < 1_000_000_000);
        }
        _ => panic!("expected an IP capture"),
    }
}

#[test]
fn capture_loop_decisions() {
    assert!(matches!(classify_frame(&[0u8; 13]), FrameAction::Skip));
    assert!(matches!(classify_frame(&ethernet(0x0806, &arp_packet())), FrameAction::Skip));
    match classify_frame(&ethernet(0x0800, &ipv4_packet(20, 6, 0))) {
        FrameAction::Forward(c) => assert_eq!(c.dest, IpAddress::V4([10, 0, 0, 2])),
        _ => panic!("expected the capture to be forwarded"),
    }
    assert!(matches!(
        classify_frame(&ethernet(0x0806, &[0, 1])),
        FrameAction::Report(CaptureError::MalformedArp)
    ));
}

#[test]
fn ip_to_bytes_maps_ipv4() {
    assert_eq!(
        ip_to_bytes(IpAddress::V4([192, 168, 1, 5])),
        [0, 0, 0, 0, 0, 0, 0, 0, 0, 0, 0xff, 0xff, 192, 168, 1, 5]
    );
    let v6 = [0x20, 0x01, 0x0d, 0xb8, 0, 0, 0, 0, 0, 0, 0, 0, 0, 0, 0, 1];
    assert_eq!(ip_to_bytes(IpAddress::V6(v6)), v6);
}

#[test]
fn bytes_to_ip_unmaps_ipv4() {
    let mapped = [0, 0, 0, 0, 0, 0, 0, 0, 0, 0, 0xff, 0xff, 8, 8, 4, 4];
    assert_eq!(bytes_to_ip(&mapped), IpAddress::V4([8, 8, 4, 4]));
    let almost = [0, 0, 0, 0, 0, 0, 0, 0, 0, 1, 0xff, 0xff, 8, 8, 4, 4];
    assert_eq!(bytes_to_ip(&almost), IpAddress::V6(almost));
}

#[test]
fn address_round_trips() {
    for a in [
        IpAddress::V4([127, 0, 0, 1]),
        IpAddress::V6([0xfe, 0x80, 0, 0, 0, 0, 0, 0, 0, 0, 0, 0, 0, 0, 0, 7]),
    ] {
        assert_eq!(bytes_to_ip(&ip_to_bytes(a)), a);
    }
    let mapped_v6 = IpAddress::V6([0, 0, 0, 0, 0, 0, 0, 0, 0, 0, 0xff, 0xff, 1, 2, 3, 4]);
    assert_eq!(bytes_to_ip(&ip_to_bytes(mapped_v6)), IpAddress::V4([1, 2, 3, 4]));
    for b in [[0u8; 16], [0, 0, 0, 0, 0, 0, 0, 0, 0, 0, 0xff, 0xff, 9, 9, 9, 9]] {
        assert_eq!(ip_to_bytes(bytes_to_ip(&b)), b);
    }
}

#[test]
fn other_capture_models() {
    let v4 = ethernet(0x0800, &ipv4_packet(22, 6, 2));
    let local = LocalTimestamp { instant: TS, local_minus_utc: 3600 };
    match packet_cap::parse_payload_at(&v4, local) {
        Ok(packet_cap::Capture::IP(c)) => {
            assert_eq!(c.timestamp, local);
            assert_eq!(c.source, IpAddress::V4([10, 0, 0, 1]));
            assert_eq!(c.length, 17);
        }
        _ => panic!("expected an IP capture"),
    }
    match packet_cap::parse_payload_at(&ethernet(0x0806, &arp_packet()), local) {
        Ok(packet_cap::Capture::ARP(a)) => assert_eq!(a.ethernet_frame_type, 0x0800),
        _ => panic!("expected an ARP capture"),
    }
    let at = EpochOffset { before_epoch: false, secs: 1_700_000_000, nanos: 9 };
    match pkt_cap::parse_payload_at(&v4, at) {
        Ok(c) => {
            assert_eq!(c.timestamp, at);
            assert_eq!(c.length, 17);
            assert_eq!(c.transport_protocol, 6);
            assert_eq!(c.internet_protocol, 0x0800);
            assert_eq!(c.payload, vec![0, 1]);
        }
        Err(_) => panic!("expected a capture"),
    }
    assert!(matches!(
        pkt_cap::parse_payload_at(&ethernet(0x0806, &arp_packet()), at),
        Err(pkt_cap::CaptureError::UnsupportedProtocol(0x0806))
    ));
}

#[test]
fn flat_model_stamps_system_time() {
    let frame = ethernet(0x86DD, &ipv6_packet(2, 17, 2));
    match pkt_cap::parse_payload(&frame) {
        Ok(c) => {
            assert!(!c.timestamp.before_epoch);
            assert!(c.timestamp.secs > 1_577_836_800);
            assert!(c.timestamp.nanos < 1_000_000_000);
            assert_eq!(c.internet_protocol, 0x86DD);
            assert_eq!(c.length, 2);
            assert_eq!(c.payload, vec![100, 101]);
        }
        Err(_) => panic!("expected a capture"),
    }
}

#[test]
fn local_model_stamps_local_time() {
    let frame = ethernet(0x0806, &arp_packet());
    match packet_cap::parse_payload(&frame) {
        Ok(packet_cap::Capture::ARP(a)) => {
            assert!(a.timestamp.instant.secs > 1_577_836_800);
            assert!(a.timestamp.local_minus_utc.abs() < 86_400);
            assert_eq!(a.operation, 2);
        }
        _ => panic!("expected an ARP capture"),
    }
}

#[test]
fn loop_stops_when_writer_is_gone() {
    assert_eq!(after_forward(true), LoopControl::Continue);
    assert_eq!(after_forward(false), LoopControl::Stop);
}
