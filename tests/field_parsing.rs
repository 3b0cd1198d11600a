use tcp_sessions::packet::{ApplicationProtocol, TCPFlags, Timestamp};
use tcp_sessions::parser::{
    parse_application_layer, parse_ethernet_layer, parse_ip_address, parse_ip_layer,
    parse_mac_address, parse_packet_fields, parse_packets, parse_tcp_flags, parse_tcp_layer,
    PacketFields, PcapError,
};
use tcp_sessions::text::{parse_unsigned, split_pieces};

fn s(t: &str) -> Option<String> {
    Some(t.to_string())
}

fn full_record() -> PacketFields {
    PacketFields {
        capture_time: Some((1_600_000_000, 123_000)),
        eth_src: s("00:1a:2B:3c:4d:5e"),
        eth_dst: s("ff:ff:ff:ff:ff:ff"),
        eth_type: s("86dd"),
        ip_src: s("192.168.1.10"),
        ip_dst: s("10.0.0.1"),
        tcp_srcport: s("51000"),
        tcp_dstport: s("443"),
        tcp_seq: s("4294967295"),
        tcp_ack: s("77"),
        tcp_flags: s("0x0012"),
        tcp_window_size: s("65535"),
        payload: Some(vec![1, 2, 3]),
    }
}

fn message(e: PcapError) -> String {
    match e {
        PcapError::ParseError(m) => m,
        other => panic!("unexpected error {:?}", other),
    }
}

#[test]
fn unsigned_numbers_follow_std_rules() {
    assert_eq!(parse_unsigned("255", 10, 255), Some(255));
    assert_eq!(parse_unsigned("256", 10, 255), None);
    assert_eq!(parse_unsigned("+7", 10, 255), Some(7));
    assert_eq!(parse_unsigned("+", 10, 255), None);
    assert_eq!(parse_unsigned("", 10, 255), None);
    assert_eq!(parse_unsigned("-1", 10, 255), None);
    assert_eq!(parse_unsigned("++1", 10, 255), None);
    assert_eq!(parse_unsigned("fF", 16, 255), Some(255));
    assert_eq!(parse_unsigned("1g", 16, 255), None);
    assert_eq!(parse_unsigned("12a", 10, 65535), None);
    assert_eq!(parse_unsigned("0000000000042", 10, 255), Some(42));
    assert_eq!(parse_unsigned("4294967295", 10, u32::MAX), Some(u32::MAX));
    assert_eq!(parse_unsigned("4294967296", 10, u32::MAX), None);
    for t in ["0", "9", "1234", "65535", "65536", "+65535", "x", " 1"] {
        assert_eq!(parse_unsigned(t, 10, 65535), t.parse::<u16>().ok().map(|v| v as u32));
    }
}

#[test]
fn pieces_between_separators() {
    assert_eq!(split_pieces("a:b::c", ':'), vec!["a", "b", "", "c"]);
    assert_eq!(split_pieces("", ':'), vec![""]);
    assert_eq!(split_pieces("x:", ':'), vec!["x", ""]);
}

#[test]
fn mac_address_reads_hex_octets() {
    assert_eq!(parse_mac_address("00:1a:2B:3c:4d:5e"), [0x00, 0x1a, 0x2b, 0x3c, 0x4d, 0x5e]);
    assert_eq!(parse_mac_address("aa:bb"), [0xaa, 0xbb, 0, 0, 0, 0]);
    assert_eq!(parse_mac_address("aa:zz:100:1:2:3:4"), [0xaa, 0, 0, 1, 2, 3]);
    assert_eq!(parse_mac_address(""), [0; 6]);
}

#[test]
fn ip_address_reads_decimal_octets() {
    assert_eq!(parse_ip_address("192.168.1.10"), [192, 168, 1, 10]);
    assert_eq!(parse_ip_address("10.0.0.256"), [10, 0, 0, 0]);
    assert_eq!(parse_ip_address("1.2"), [1, 2, 0, 0]);
    assert_eq!(parse_ip_address("1.2.3.4.5"), [1, 2, 3, 4]);
    assert_eq!(parse_ip_address("a.+5.07.x"), [0, 5, 7, 0]);
}

#[test]
fn tcp_flags_read_from_hex_word() {
    let f = parse_tcp_flags("0x0012");
    assert!(f.syn && f.ack);
    assert!(!f.fin && !f.rst && !f.psh && !f.urg && !f.ece && !f.cwr);
    let all = parse_tcp_flags("0x0ff");
    assert!(all.fin && all.syn && all.rst && all.psh && all.ack && all.urg && all.ece && all.cwr);
    let twice = parse_tcp_flags("0x0x001");
    assert!(twice.fin && !twice.syn);
    let bare = parse_tcp_flags("11");
    assert!(bare.fin && bare.ack && !bare.syn);
    let bad = parse_tcp_flags("0xzz");
    assert_eq!(
        (bad.fin, bad.syn, bad.rst, bad.psh, bad.ack, bad.urg, bad.ece, bad.cwr),
        (false, false, false, false, false, false, false, false)
    );
}

#[test]
fn layers_read_from_full_record() {
    let r = full_record();
    let e = parse_ethernet_layer(&r).unwrap();
    assert_eq!(e.source_mac, [0x00, 0x1a, 0x2b, 0x3c, 0x4d, 0x5e]);
    assert_eq!(e.destination_mac, [0xff; 6]);
    assert_eq!(e.ethertype, 0x86dd);
    let h = parse_ip_layer(&r).unwrap();
    assert_eq!(h.source_ip, [192, 168, 1, 10]);
    assert_eq!(h.destination_ip, [10, 0, 0, 1]);
    assert_eq!((h.version, h.ihl, h.ttl, h.protocol), (4, 5, 64, 6));
    let t = parse_tcp_layer(&r).unwrap();
    assert_eq!((t.source_port, t.destination_port), (51000, 443));
    assert_eq!((t.sequence_number, t.acknowledgment_number, t.window_size), (u32::MAX, 77, 65535));
    assert!(t.flags.syn && t.flags.ack && !t.flags.fin);
    let a = parse_application_layer(&r, 51000, 443).unwrap();
    assert!(matches!(a.protocol, ApplicationProtocol::HTTPS));
    assert_eq!(a.payload, vec![1, 2, 3]);
}

#[test]
fn optional_fields_default() {
    let mut r = full_record();
    r.eth_type = None;
    r.tcp_srcport = s("70000");
    r.tcp_dstport = None;
    r.tcp_seq = s("abc");
    r.tcp_ack = None;
    r.tcp_flags = None;
    r.tcp_window_size = None;
    r.payload = None;
    let p = parse_packet_fields(&r).unwrap();
    assert_eq!(p.ethernet_layer.ethertype, 0x0800);
    assert_eq!((p.tcp_layer.source_port, p.tcp_layer.destination_port), (0, 0));
    assert_eq!((p.tcp_layer.sequence_number, p.tcp_layer.acknowledgment_number), (0, 0));
    assert_eq!(p.tcp_layer.window_size, 0);
    let f: TCPFlags = p.tcp_layer.flags;
    assert!(!f.syn && !f.fin && !f.ack);
    assert!(p.application_layer.payload.is_empty());
    assert_eq!(p.get_protocol_string(), "TCP");
}

#[test]
fn protocol_from_well_known_ports() {
    let r = full_record();
    let label = |src, dst| parse_application_layer(&r, src, dst).unwrap();
    assert!(matches!(label(40000, 80).protocol, ApplicationProtocol::HTTP));
    assert!(matches!(label(22, 40000).protocol, ApplicationProtocol::SSH));
    assert!(matches!(label(53, 21).protocol, ApplicationProtocol::FTP));
    assert!(matches!(label(25, 1).protocol, ApplicationProtocol::SMTP));
    assert!(matches!(label(1, 53).protocol, ApplicationProtocol::DNS));
}

#[test]
fn full_record_gives_packet() {
    let p = parse_packet_fields(&full_record()).unwrap();
    assert_eq!(p.timestamp, Timestamp { secs: 1_600_000_000, nanos: 123_000 });
    assert_eq!(p.ip_layer.source_ip, [192, 168, 1, 10]);
    assert_eq!(p.total_size(), 14 + 20 + 20 + 3);
    assert!(p.is_handshake());
}

#[test]
fn missing_required_fields_are_reported_in_order() {
    let mut r = full_record();
    r.capture_time = None;
    r.eth_src = None;
    assert_eq!(message(parse_packet_fields(&r).unwrap_err()), "Invalid timestamp");
    let mut r = full_record();
    r.eth_src = None;
    r.ip_src = None;
    assert_eq!(message(parse_packet_fields(&r).unwrap_err()), "Invalid source MAC");
    let mut r = full_record();
    r.eth_dst = None;
    assert_eq!(message(parse_packet_fields(&r).unwrap_err()), "Invalid destination MAC");
    let mut r = full_record();
    r.ip_src = None;
    assert_eq!(message(parse_packet_fields(&r).unwrap_err()), "Invalid source IP");
    let mut r = full_record();
    r.ip_dst = None;
    assert_eq!(message(parse_packet_fields(&r).unwrap_err()), "Invalid destination IP");
}

#[test]
fn unrepresentable_time_becomes_epoch() {
    let mut r = full_record();
    r.capture_time = Some((10, 1_999_999_999));
    let p = parse_packet_fields(&r).unwrap();
    assert_eq!(p.timestamp, Timestamp { secs: 0, nanos: 0 });
}

#[test]
fn incomplete_records_are_skipped() {
    let mut broken = full_record();
    broken.ip_dst = None;
    let mut second = full_record();
    second.tcp_srcport = s("8080");
    let packets = parse_packets(&vec![full_record(), broken, second]);
    assert_eq!(packets.len(), 2);
    assert_eq!(packets[0].tcp_layer.source_port, 51000);
    assert_eq!(packets[1].tcp_layer.source_port, 8080);
    assert!(parse_packets(&vec![]).is_empty());
}
