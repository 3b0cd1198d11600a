use vstd::prelude::*;

use crate::packet::{
    ApplicationData, ApplicationProtocol, EthernetFrame, IPv4Flags, IPv4Packet, NetworkPacket,
    TCPFlags, TCPSegment, Timestamp, copy_bytes, utc_representable,
};
use crate::text::{split_on, split_pieces, parse_unsigned, unsigned_value};

verus! {

#[verifier::external_type_specification]
#[verifier::external_body]
pub struct ExIoError(std::io::Error);

#[verifier::external_type_specification]
#[verifier::external_body]
pub struct ExJsonError(serde_json::Error);

/// Why a capture could not be read.
#[derive(Debug)]
pub enum PcapError {
    IoError(std::io::Error),
    TsharkNotFound,
    ParseError(String),
    JsonError(serde_json::Error),
}

impl From<std::io::Error> for PcapError {
    fn from(error: std::io::Error) -> (r: PcapError) {
        PcapError::IoError(error)
    }
}

impl vstd::std_specs::convert::FromSpecImpl<std::io::Error> for PcapError {
    open spec fn obeys_from_spec() -> bool {
        true
    }

    open spec fn from_spec(error: std::io::Error) -> PcapError {
        PcapError::IoError(error)
    }
}

impl From<serde_json::Error> for PcapError {
    fn from(error: serde_json::Error) -> (r: PcapError) {
        PcapError::JsonError(error)
    }
}

impl vstd::std_specs::convert::FromSpecImpl<serde_json::Error> for PcapError {
    open spec fn obeys_from_spec() -> bool {
        true
    }

    open spec fn from_spec(error: serde_json::Error) -> PcapError {
        PcapError::JsonError(error)
    }
}

/// The text values that a decoder reports for one packet, each absent where
/// the decoder gave none. The capture time comes as whole seconds and the
/// nanoseconds past them.
#[derive(Debug, Clone)]
pub struct PacketFields {
    pub capture_time: Option<(i64, u32)>,
    pub eth_src: Option<String>,
    pub eth_dst: Option<String>,
    pub eth_type: Option<String>,
    pub ip_src: Option<String>,
    pub ip_dst: Option<String>,
    pub tcp_srcport: Option<String>,
    pub tcp_dstport: Option<String>,
    pub tcp_seq: Option<String>,
    pub tcp_ack: Option<String>,
    pub tcp_flags: Option<String>,
    pub tcp_window_size: Option<String>,
    pub payload: Option<Vec<u8>>,
}

/// Default EtherType: IPv4.
pub const ETHERTYPE_IPV4: u16 = 0x0800;

/// One byte of an address: the piece read in `radix`, or zero where it is no
/// such number.
pub open spec fn octet_or_zero(piece: Seq<char>, radix: nat) -> u8 {
    match unsigned_value(piece, radix, 255) {
        Some(v) => v as u8,
        None => 0,
    }
}

/// The first `n` bytes of an address written as pieces separated by `sep`;
/// missing pieces give zero, pieces past the `n`th are ignored.
pub open spec fn octets_of(s: Seq<char>, sep: char, radix: nat, n: nat) -> Seq<u8> {
    Seq::new(
        n,
        |i: int|
            if i < split_on(s, sep).len() {
                octet_or_zero(split_on(s, sep)[i], radix)
            } else {
                0
            },
    )
}

/// `s` without every leading `0x`.
pub open spec fn strip_hex_prefix(s: Seq<char>) -> Seq<char>
    decreases s.len(),
{
    if s.len() >= 2 && s[0] == '0' && s[1] == 'x' {
        strip_hex_prefix(s.subrange(2, s.len() as int))
    } else {
        s
    }
}

/// The flag bits of a TCP header, lowest first: FIN, SYN, RST, PSH, ACK, URG,
/// ECE, CWR.
pub open spec fn flags_of_bits(v: u16) -> TCPFlags {
    TCPFlags {
        fin: v & 0x001 != 0,
        syn: v & 0x002 != 0,
        rst: v & 0x004 != 0,
        psh: v & 0x008 != 0,
        ack: v & 0x010 != 0,
        urg: v & 0x020 != 0,
        ece: v & 0x040 != 0,
        cwr: v & 0x080 != 0,
    }
}

/// The flag word written in hex, after any leading `0x`; zero where it is no
/// such number.
pub open spec fn flag_bits(s: Seq<char>) -> u16 {
    match unsigned_value(strip_hex_prefix(s), 16, 0xffff) {
        Some(v) => v as u16,
        None => 0,
    }
}

/// A number read from an optional field, or `default` where the field is
/// absent or holds no number in range.
pub open spec fn field_number(f: Option<String>, radix: nat, max: nat, default: nat) -> nat {
    match f {
        Some(t) => match unsigned_value(t@, radix, max) {
            Some(v) => v,
            None => default,
        },
        None => default,
    }
}

fn write_octets(pieces: &Vec<&str>, radix: u32, out: &mut Vec<u8>, Ghost(s): Ghost<Seq<char>>, Ghost(sep): Ghost<char>)
    requires
        radix == 10 || radix == 16,
        pieces@.len() == split_on(s, sep).len(),
        forall|k: int| 0 <= k < pieces@.len() ==> (#[trigger] pieces@[k])@ == split_on(s, sep)[k],
        old(out)@ == Seq::new(old(out)@.len(), |i: int| 0u8),
    ensures
        final(out)@ == octets_of(s, sep, radix as nat, old(out)@.len()),
{
    let n = out.len();
    let mut k: usize = 0;
    while k < n
        invariant
            k <= n == out@.len(),
            radix == 10 || radix == 16,
            pieces@.len() == split_on(s, sep).len(),
            forall|j: int| 0 <= j < pieces@.len() ==> (#[trigger] pieces@[j])@ == split_on(s, sep)[j],
            forall|j: int| 0 <= j < k ==> out@[j] == octets_of(s, sep, radix as nat, n as nat)[j],
            forall|j: int| k <= j < n ==> out@[j] == 0u8,
        decreases n - k,
    {
        if k < pieces.len() {
            let v = parse_unsigned(pieces[k], radix, 255);
            match v {
                Some(b) => {
                    out[k] = b as u8;
                },
                None => {},
            }
        }
        k = k + 1;
    }
    assert(out@ =~= octets_of(s, sep, radix as nat, n as nat));
}

/// Reads a hardware address written as hex octets separated by `:`.
pub fn parse_mac_address(mac_str: &str) -> (r: [u8; 6])
    ensures
        r@ == octets_of(mac_str@, ':', 16, 6),
{
    let pieces = split_pieces(mac_str, ':');
    let mut out: Vec<u8> = vec![0u8, 0u8, 0u8, 0u8, 0u8, 0u8];
    assert(out@ =~= Seq::new(6, |i: int| 0u8));
    write_octets(&pieces, 16, &mut out, Ghost(mac_str@), Ghost(':'));
    let r = [out[0], out[1], out[2], out[3], out[4], out[5]];
    assert(r@ =~= out@);
    r
}

/// Reads a network address written as decimal octets separated by `.`.
pub fn parse_ip_address(ip_str: &str) -> (r: [u8; 4])
    ensures
        r@ == octets_of(ip_str@, '.', 10, 4),
{
    let pieces = split_pieces(ip_str, '.');
    let mut out: Vec<u8> = vec![0u8, 0u8, 0u8, 0u8];
    assert(out@ =~= Seq::new(4, |i: int| 0u8));
    write_octets(&pieces, 10, &mut out, Ghost(ip_str@), Ghost('.'));
    let r = [out[0], out[1], out[2], out[3]];
    assert(r@ =~= out@);
    r
}

/// Reads the TCP flag word, written in hex after any number of `0x`.
pub fn parse_tcp_flags(flags_str: &str) -> (r: TCPFlags)
    ensures
        r == flags_of_bits(flag_bits(flags_str@)),
{
    let len = flags_str.unicode_len();
    let mut i: usize = 0;
    assert(flags_str@.subrange(0, len as int) =~= flags_str@);
    while len - i >= 2 && flags_str.get_char(i) == '0' && flags_str.get_char(i + 1) == 'x'
        invariant
            i <= len == flags_str@.len(),
            strip_hex_prefix(flags_str@) == strip_hex_prefix(flags_str@.subrange(i as int, len as int)),
        decreases len - i,
    {
        let ghost rest = flags_str@.subrange(i as int, len as int);
        assert(rest.subrange(2, rest.len() as int) =~= flags_str@.subrange(i + 2, len as int));
        assert(rest[0] == '0' && rest[1] == 'x');
        i = i + 2;
    }
    proof {
        let rest = flags_str@.subrange(i as int, len as int);
        if rest.len() >= 2 {
            assert(rest[0] == flags_str@[i as int] && rest[1] == flags_str@[i + 1]);
        }
        assert(strip_hex_prefix(rest) == rest);
    }
    let digits = flags_str.substring_char(i, len);
    let v: u16 = match parse_unsigned(digits, 16, 0xffff) {
        Some(v) => v as u16,
        None => 0,
    };
    TCPFlags {
        fin: v & 0x001 != 0,
        syn: v & 0x002 != 0,
        rst: v & 0x004 != 0,
        psh: v & 0x008 != 0,
        ack: v & 0x010 != 0,
        urg: v & 0x020 != 0,
        ece: v & 0x040 != 0,
        cwr: v & 0x080 != 0,
    }
}

/// `r` is a parse error carrying `msg`.
pub open spec fn parse_error_with<T>(r: Result<T, PcapError>, msg: Seq<char>) -> bool {
    match r {
        Err(PcapError::ParseError(m)) => m@ == msg,
        _ => false,
    }
}

/// The message for the first required field that `f` lacks, in the order
/// capture time, source and destination hardware address, source and
/// destination network address; `None` where all are there.
pub open spec fn missing_field(f: PacketFields) -> Option<Seq<char>> {
    if f.capture_time is None {
        Some("Invalid timestamp"@)
    } else if f.eth_src is None {
        Some("Invalid source MAC"@)
    } else if f.eth_dst is None {
        Some("Invalid destination MAC"@)
    } else if f.ip_src is None {
        Some("Invalid source IP"@)
    } else if f.ip_dst is None {
        Some("Invalid destination IP"@)
    } else {
        None
    }
}

/// The Ethernet header that fields with both hardware addresses give.
pub open spec fn ethernet_from(e: EthernetFrame, f: PacketFields) -> bool {
    &&& e.source_mac@ == octets_of(f.eth_src->Some_0@, ':', 16, 6)
    &&& e.destination_mac@ == octets_of(f.eth_dst->Some_0@, ':', 16, 6)
    &&& e.ethertype == field_number(f.eth_type, 16, 0xffff, ETHERTYPE_IPV4 as nat)
    &&& e.frame_check_sequence == 0
}

/// The IPv4 header that fields with both network addresses give: the
/// addresses read, the rest at their usual or zero values.
pub open spec fn ip_from(h: IPv4Packet, f: PacketFields) -> bool {
    &&& h.version == 4
    &&& h.ihl == 5
    &&& h.dscp == 0
    &&& h.ecn == 0
    &&& h.total_length == 0
    &&& h.identification == 0
    &&& h.flags == IPv4Flags { reserved: false, dont_fragment: false, more_fragments: false }
    &&& h.fragment_offset == 0
    &&& h.ttl == 64
    &&& h.protocol == 6
    &&& h.header_checksum == 0
    &&& h.source_ip@ == octets_of(f.ip_src->Some_0@, '.', 10, 4)
    &&& h.destination_ip@ == octets_of(f.ip_dst->Some_0@, '.', 10, 4)
    &&& h.options@.len() == 0
}

/// The TCP header that fields give: each number read where present and in
/// range, zero otherwise.
pub open spec fn tcp_from(t: TCPSegment, f: PacketFields) -> bool {
    &&& t.source_port == field_number(f.tcp_srcport, 10, 0xffff, 0)
    &&& t.destination_port == field_number(f.tcp_dstport, 10, 0xffff, 0)
    &&& t.sequence_number == field_number(f.tcp_seq, 10, 0xffff_ffff, 0)
    &&& t.acknowledgment_number == field_number(f.tcp_ack, 10, 0xffff_ffff, 0)
    &&& t.data_offset == 5
    &&& t.flags == flags_of_bits(
        match f.tcp_flags {
            Some(s) => flag_bits(s@),
            None => 0,
        },
    )
    &&& t.window_size == field_number(f.tcp_window_size, 10, 0xffff, 0)
    &&& t.checksum == 0
    &&& t.urgent_pointer == 0
    &&& t.options@.len() == 0
}

/// The protocol served on a well-known port.
pub open spec fn protocol_for_port(port: u16) -> Option<ApplicationProtocol> {
    if port == 80 {
        Some(ApplicationProtocol::HTTP)
    } else if port == 443 {
        Some(ApplicationProtocol::HTTPS)
    } else if port == 21 {
        Some(ApplicationProtocol::FTP)
    } else if port == 22 {
        Some(ApplicationProtocol::SSH)
    } else if port == 25 {
        Some(ApplicationProtocol::SMTP)
    } else if port == 53 {
        Some(ApplicationProtocol::DNS)
    } else {
        None
    }
}

/// The application layer of a packet between the given ports: the protocol of
/// the destination port if it is well known, else that of the source port,
/// else the label `TCP`; the payload as reported, or empty.
pub open spec fn application_from(a: ApplicationData, f: PacketFields, src: u16, dst: u16) -> bool {
    &&& match (protocol_for_port(dst), protocol_for_port(src)) {
        (Some(p), _) => a.protocol == p,
        (None, Some(p)) => a.protocol == p,
        (None, None) => a.protocol matches ApplicationProtocol::Custom(label) && label@ == "TCP"@,
    }
    &&& a.payload@ == match f.payload {
        Some(v) => v@,
        None => Seq::empty(),
    }
}

/// The packet that fields with every required value give.
pub open spec fn packet_from(p: NetworkPacket, f: PacketFields) -> bool {
    let (secs, nanos) = f.capture_time->Some_0;
    &&& p.timestamp == (if utc_representable(secs as int, nanos as int) {
        Timestamp { secs, nanos }
    } else {
        Timestamp::epoch()
    })
    &&& ethernet_from(p.ethernet_layer, f)
    &&& ip_from(p.ip_layer, f)
    &&& tcp_from(p.tcp_layer, f)
    &&& application_from(
        p.application_layer,
        f,
        p.tcp_layer.source_port,
        p.tcp_layer.destination_port,
    )
}

fn parse_error(msg: &str) -> (r: PcapError)
    ensures
        r matches PcapError::ParseError(m) && m@ == msg@,
{
    PcapError::ParseError(msg.to_owned())
}

fn number_field(f: &Option<String>, radix: u32, max: u32, default: u32) -> (r: u32)
    requires
        radix == 10 || radix == 16,
        default <= max,
    ensures
        r == field_number(*f, radix as nat, max as nat, default as nat),
        r <= max,
{
    match f {
        Some(t) => match parse_unsigned(t.as_str(), radix, max) {
            Some(v) => v,
            None => default,
        },
        None => default,
    }
}

/// Reads the Ethernet header; both hardware addresses are required.
pub fn parse_ethernet_layer(layers: &PacketFields) -> (r: Result<EthernetFrame, PcapError>)
    ensures
        layers.eth_src is None ==> parse_error_with(r, "Invalid source MAC"@),
        layers.eth_src is Some && layers.eth_dst is None ==> parse_error_with(r, "Invalid destination MAC"@),
        layers.eth_src is Some && layers.eth_dst is Some ==> (r matches Ok(e) && ethernet_from(e, *layers)),
{
    let source_mac = match &layers.eth_src {
        Some(s) => parse_mac_address(s.as_str()),
        None => {
            return Err(parse_error("Invalid source MAC"));
        },
    };
    let destination_mac = match &layers.eth_dst {
        Some(s) => parse_mac_address(s.as_str()),
        None => {
            return Err(parse_error("Invalid destination MAC"));
        },
    };
    let ethertype = number_field(&layers.eth_type, 16, 0xffff, ETHERTYPE_IPV4 as u32) as u16;
    Ok(EthernetFrame { source_mac, destination_mac, ethertype, frame_check_sequence: 0 })
}

/// Reads the IPv4 header; both network addresses are required, the other
/// fields take their usual or zero values.
pub fn parse_ip_layer(layers: &PacketFields) -> (r: Result<IPv4Packet, PcapError>)
    ensures
        layers.ip_src is None ==> parse_error_with(r, "Invalid source IP"@),
        layers.ip_src is Some && layers.ip_dst is None ==> parse_error_with(r, "Invalid destination IP"@),
        layers.ip_src is Some && layers.ip_dst is Some ==> (r matches Ok(h) && ip_from(h, *layers)),
{
    let source_ip = match &layers.ip_src {
        Some(s) => parse_ip_address(s.as_str()),
        None => {
            return Err(parse_error("Invalid source IP"));
        },
    };
    let destination_ip = match &layers.ip_dst {
        Some(s) => parse_ip_address(s.as_str()),
        None => {
            return Err(parse_error("Invalid destination IP"));
        },
    };
    Ok(
        IPv4Packet {
            version: 4,
            ihl: 5,
            dscp: 0,
            ecn: 0,
            total_length: 0,
            identification: 0,
            flags: IPv4Flags { reserved: false, dont_fragment: false, more_fragments: false },
            fragment_offset: 0,
            ttl: 64,
            protocol: 6,
            header_checksum: 0,
            source_ip,
            destination_ip,
            options: Vec::new(),
        },
    )
}

proof fn lemma_no_bits()
    ensures
        flags_of_bits(0) == (TCPFlags {
            fin: false,
            syn: false,
            rst: false,
            psh: false,
            ack: false,
            urg: false,
            ece: false,
            cwr: false,
        }),
{
    assert(0u16 & 0x001 == 0 && 0u16 & 0x002 == 0 && 0u16 & 0x004 == 0 && 0u16 & 0x008 == 0
        && 0u16 & 0x010 == 0 && 0u16 & 0x020 == 0 && 0u16 & 0x040 == 0 && 0u16 & 0x080 == 0)
        by (bit_vector);
}

/// Reads the TCP header; every field is optional.
pub fn parse_tcp_layer(layers: &PacketFields) -> (r: Result<TCPSegment, PcapError>)
    ensures
        r matches Ok(t) && tcp_from(t, *layers),
{
    let flags = match &layers.tcp_flags {
        Some(s) => parse_tcp_flags(s.as_str()),
        None => TCPFlags {
            fin: false,
            syn: false,
            rst: false,
            psh: false,
            ack: false,
            urg: false,
            ece: false,
            cwr: false,
        },
    };
    proof {
        lemma_no_bits();
    }
    Ok(
        TCPSegment {
            source_port: number_field(&layers.tcp_srcport, 10, 0xffff, 0) as u16,
            destination_port: number_field(&layers.tcp_dstport, 10, 0xffff, 0) as u16,
            sequence_number: number_field(&layers.tcp_seq, 10, 0xffff_ffff, 0),
            acknowledgment_number: number_field(&layers.tcp_ack, 10, 0xffff_ffff, 0),
            data_offset: 5,
            flags,
            window_size: number_field(&layers.tcp_window_size, 10, 0xffff, 0) as u16,
            checksum: 0,
            urgent_pointer: 0,
            options: Vec::new(),
        },
    )
}

fn known_protocol(port: u16) -> (r: Option<ApplicationProtocol>)
    ensures
        r == protocol_for_port(port),
{
    if port == 80 {
        Some(ApplicationProtocol::HTTP)
    } else if port == 443 {
        Some(ApplicationProtocol::HTTPS)
    } else if port == 21 {
        Some(ApplicationProtocol::FTP)
    } else if port == 22 {
        Some(ApplicationProtocol::SSH)
    } else if port == 25 {
        Some(ApplicationProtocol::SMTP)
    } else if port == 53 {
        Some(ApplicationProtocol::DNS)
    } else {
        None
    }
}

/// Classifies the application protocol by the ports and takes the payload.
pub fn parse_application_layer(layers: &PacketFields, source_port: u16, destination_port: u16) -> (r: Result<ApplicationData, PcapError>)
    ensures
        r matches Ok(a) && application_from(a, *layers, source_port, destination_port),
{
    let protocol = match known_protocol(destination_port) {
        Some(p) => p,
        None => match known_protocol(source_port) {
            Some(p) => p,
            None => ApplicationProtocol::Custom("TCP".to_owned()),
        },
    };
    let payload = match &layers.payload {
        Some(v) => copy_bytes(v),
        None => Vec::new(),
    };
    Ok(ApplicationData { protocol, payload })
}

/// Builds a packet from one decoder record; fails, with the message of
/// `missing_field`, where a required field is absent.
pub fn parse_packet_fields(fields: &PacketFields) -> (r: Result<NetworkPacket, PcapError>)
    ensures
        match missing_field(*fields) {
            Some(m) => parse_error_with(r, m),
            None => r matches Ok(p) && packet_from(p, *fields),
        },
{
    let timestamp = match fields.capture_time {
        Some((secs, nanos)) => Timestamp::from_epoch(secs, nanos),
        None => {
            return Err(parse_error("Invalid timestamp"));
        },
    };
    let ethernet_layer = match parse_ethernet_layer(fields) {
        Ok(e) => e,
        Err(e) => {
            return Err(e);
        },
    };
    let ip_layer = match parse_ip_layer(fields) {
        Ok(h) => h,
        Err(e) => {
            return Err(e);
        },
    };
    let tcp_layer = match parse_tcp_layer(fields) {
        Ok(t) => t,
        Err(e) => {
            return Err(e);
        },
    };
    let application_layer = match parse_application_layer(
        fields,
        tcp_layer.source_port,
        tcp_layer.destination_port,
    ) {
        Ok(a) => a,
        Err(e) => {
            return Err(e);
        },
    };
    Ok(NetworkPacket { timestamp, ethernet_layer, ip_layer, tcp_layer, application_layer })
}

/// The records that hold every required field, in order.
pub open spec fn complete_records(fs: Seq<PacketFields>) -> Seq<PacketFields>
    decreases fs.len(),
{
    if fs.len() == 0 {
        seq![]
    } else if missing_field(fs.last()) is None {
        complete_records(fs.drop_last()).push(fs.last())
    } else {
        complete_records(fs.drop_last())
    }
}

/// Builds packets from decoder records, skipping each record that lacks a
/// required field.
pub fn parse_packets(records: &Vec<PacketFields>) -> (r: Vec<NetworkPacket>)
    ensures
        r@.len() == complete_records(records@).len(),
        forall|k: int| 0 <= k < r@.len() ==> packet_from(#[trigger] r@[k], complete_records(records@)[k]),
{
    let mut out: Vec<NetworkPacket> = Vec::new();
    let mut i: usize = 0;
    while i < records.len()
        invariant
            i <= records@.len(),
            out@.len() == complete_records(records@.take(i as int)).len(),
            forall|k: int| 0 <= k < out@.len() ==> packet_from(#[trigger] out@[k], complete_records(records@.take(i as int))[k]),
        decreases records@.len() - i,
    {
        assert(records@.take(i + 1).drop_last() =~= records@.take(i as int));
        match parse_packet_fields(&records[i]) {
            Ok(p) => {
                out.push(p);
            },
            Err(_) => {},
        }
        i = i + 1;
    }
    assert(records@.take(i as int) =~= records@);
    out
}

} // verus!
