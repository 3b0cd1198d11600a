use tcp_sessions::packet::{
    ApplicationData, ApplicationProtocol, EthernetFrame, IPv4Flags, IPv4Packet, NetworkPacket,
    TCPFlags, TCPSegment, Timestamp,
};
use tcp_sessions::sessions::{find_tcp_sessions, TCPSession};

const A: [u8; 4] = [10, 0, 0, 1];
const B: [u8; 4] = [10, 0, 0, 2];
const C: [u8; 4] = [10, 0, 0, 3];

fn pkt(t: i64, src: [u8; 4], sport: u16, dst: [u8; 4], dport: u16, syn: bool, ack: bool, fin: bool) -> NetworkPacket {
    NetworkPacket {
        timestamp: Timestamp { secs: t, nanos: 0 },
        ethernet_layer: EthernetFrame {
            source_mac: [0; 6],
            destination_mac: [0; 6],
            ethertype: 0x0800,
            frame_check_sequence: 0,
        },
        ip_layer: IPv4Packet {
            version: 4,
            ihl: 5,
            dscp: 0,
            ecn: 0,
            total_length: 0,
            identification: 0,
            flags: IPv4Flags { reserved: false, dont_fragment: false, more_fragments: false },
            fragment_offset: 0,
            ttl: 64,
            protocol: 6,
            header_checksum: 0,
            source_ip: src,
            destination_ip: dst,
            options: vec![],
        },
        tcp_layer: TCPSegment {
            source_port: sport,
            destination_port: dport,
            sequence_number: t as u32,
            acknowledgment_number: 0,
            data_offset: 5,
            flags: TCPFlags { fin, syn, rst: false, psh: false, ack, urg: false, ece: false, cwr: false },
            window_size: 0,
            checksum: 0,
            urgent_pointer: 0,
            options: vec![],
        },
        application_layer: ApplicationData { protocol: ApplicationProtocol::HTTP, payload: vec![] },
    }
}

fn find<'a>(sessions: &'a [TCPSession], sport: u16, dport: u16, src: [u8; 4], dst: [u8; 4]) -> &'a TCPSession {
    sessions
        .iter()
        .find(|s| s.source_port == sport && s.destination_port == dport && s.source_ip == src && s.destination_ip == dst)
        .expect("session with this key")
}

fn times(s: &TCPSession) -> Vec<i64> {
    s.packets.iter().map(|p| p.timestamp.secs).collect()
}

#[test]
fn open_reply_close_gives_one_session() {
    let input = vec![
        pkt(1, A, 1000, B, 80, true, false, false),
        pkt(2, B, 80, A, 1000, false, true, false),
        pkt(3, B, 80, A, 1000, false, false, true),
    ];
    let sessions = find_tcp_sessions(&input);
    assert_eq!(sessions.len(), 1);
    let s = find(&sessions, 1000, 80, A, B);
    assert_eq!(s.start_timestamp, Timestamp { secs: 1, nanos: 0 });
    assert_eq!(s.end_timestamp, Some(Timestamp { secs: 3, nanos: 0 }));
    // The opening and the closing packet are appended once by their own rule
    // and once more as gathered traffic.
    assert_eq!(times(s), vec![1, 1, 2, 3, 3]);
}

#[test]
fn interleaved_flows_gather_each_other() {
    let input = vec![
        pkt(1, A, 1000, B, 80, true, false, false),
        pkt(2, C, 2000, B, 443, true, false, false),
        pkt(3, A, 1000, B, 80, false, true, false),
        pkt(4, B, 443, C, 2000, false, true, false),
    ];
    let sessions = find_tcp_sessions(&input);
    assert_eq!(sessions.len(), 2);
    let x = find(&sessions, 1000, 80, A, B);
    let y = find(&sessions, 2000, 443, C, B);
    // The packet at time 4 belongs to flow Y only, yet flow X holds it.
    assert!(times(x).contains(&4));
    assert_eq!(times(x), vec![1, 1, 2, 3, 4]);
    assert_eq!(times(y), vec![2, 2, 3, 4]);
    assert_eq!(x.end_timestamp, None);
    assert_eq!(y.start_timestamp.secs, 2);
}

#[test]
fn close_without_open_changes_nothing() {
    let input = vec![pkt(1, B, 80, A, 1000, false, false, true)];
    assert!(find_tcp_sessions(&input).is_empty());
    let input = vec![
        pkt(1, A, 1000, B, 80, true, false, false),
        pkt(2, C, 80, A, 1000, false, false, true),
    ];
    let sessions = find_tcp_sessions(&input);
    assert_eq!(sessions.len(), 1);
    assert_eq!(sessions[0].end_timestamp, None);
    assert_eq!(times(&sessions[0]), vec![1, 1, 2]);
}

#[test]
fn empty_input_gives_no_sessions() {
    assert!(find_tcp_sessions(&[]).is_empty());
}

#[test]
fn repeated_open_keeps_start_time() {
    let input = vec![
        pkt(1, A, 1000, B, 80, true, false, false),
        pkt(5, A, 1000, B, 80, true, false, false),
    ];
    let sessions = find_tcp_sessions(&input);
    assert_eq!(sessions.len(), 1);
    assert_eq!(sessions[0].start_timestamp.secs, 1);
    assert_eq!(times(&sessions[0]), vec![1, 1, 5, 5]);
}

#[test]
fn first_close_fixes_end_time() {
    let input = vec![
        pkt(1, A, 1000, B, 80, true, false, false),
        pkt(2, B, 80, A, 1000, false, false, true),
        pkt(3, B, 80, A, 1000, false, true, true),
    ];
    let sessions = find_tcp_sessions(&input);
    assert_eq!(sessions.len(), 1);
    assert_eq!(sessions[0].end_timestamp.map(|t| t.secs), Some(2));
    assert_eq!(times(&sessions[0]), vec![1, 1, 2, 2, 3, 3]);
}

#[test]
fn reply_close_matches_opening_key() {
    let input = vec![
        pkt(1, A, 1000, B, 80, true, false, false),
        pkt(2, A, 1000, B, 80, false, false, true),
    ];
    // A FIN travelling in the opening direction looks for the reverse flow.
    let sessions = find_tcp_sessions(&input);
    assert_eq!(sessions[0].end_timestamp, None);
    let input = vec![
        pkt(1, A, 1000, B, 80, true, false, false),
        pkt(2, B, 80, A, 1000, false, false, true),
    ];
    assert_eq!(find_tcp_sessions(&input)[0].end_timestamp.map(|t| t.secs), Some(2));
}

#[test]
fn sessions_are_never_empty() {
    let input = vec![
        pkt(1, A, 1, B, 2, true, false, true),
        pkt(2, B, 2, A, 1, true, false, true),
        pkt(3, C, 9, C, 9, false, true, false),
    ];
    let sessions = find_tcp_sessions(&input);
    assert_eq!(sessions.len(), 2);
    for s in &sessions {
        assert!(!s.packets.is_empty());
    }
}
