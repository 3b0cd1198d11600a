use vstd::prelude::*;

verus! {

/// Bytes of an Ethernet header, without the trailing frame check sequence.
pub const ETHERNET_HEADER_LEN: usize = 14;

/// Bytes of an IPv4 header without options.
pub const IPV4_HEADER_LEN: usize = 20;

/// Bytes of a TCP header without options.
pub const TCP_HEADER_LEN: usize = 20;

/// A capture time: whole seconds since the Unix epoch and the nanoseconds
/// past that second.
#[derive(Debug, Clone, Copy, PartialEq, Eq, Structural)]
pub struct Timestamp {
    pub secs: i64,
    pub nanos: u32,
}

/// Whether chrono can represent the given seconds and nanoseconds since the
/// Unix epoch as a UTC date and time.
pub uninterp spec fn utc_representable(secs: int, nanos: int) -> bool;

/// Relies on chrono's `DateTime::<Utc>::from_timestamp`, which returns a value
/// exactly when the seconds fall in its date range and the nanoseconds are
/// valid; a nanosecond count of two billion or more, or of one billion or more
/// outside the last second of a minute, is never valid.
#[verifier::external_body]
fn utc_accepts(secs: i64, nanos: u32) -> (r: bool)
    ensures
        r == utc_representable(secs as int, nanos as int),
        nanos >= 2_000_000_000 ==> !r,
        nanos >= 1_000_000_000 && (secs as int) % 60 != 59 ==> !r,
{
    chrono::DateTime::<chrono::Utc>::from_timestamp(secs, nanos).is_some()
}

impl Timestamp {
    /// The epoch itself, 1970-01-01 00:00:00 UTC.
    pub open spec fn epoch() -> Timestamp {
        Timestamp { secs: 0, nanos: 0 }
    }

    /// The given time where it is representable, the epoch otherwise.
    pub fn settle(secs: i64, nanos: u32, representable: bool) -> (r: Timestamp)
        ensures
            r == (if representable {
                Timestamp { secs, nanos }
            } else {
                Timestamp::epoch()
            }),
    {
        if representable {
            Timestamp { secs, nanos }
        } else {
            Timestamp { secs: 0, nanos: 0 }
        }
    }

    /// A capture time from seconds and nanoseconds since the epoch; a time that
    /// no UTC date and time can hold becomes the epoch.
    pub fn from_epoch(secs: i64, nanos: u32) -> (r: Timestamp)
        ensures
            r == (if utc_representable(secs as int, nanos as int) {
                Timestamp { secs, nanos }
            } else {
                Timestamp::epoch()
            }),
            nanos >= 2_000_000_000 ==> r == Timestamp::epoch(),
    {
        Timestamp::settle(secs, nanos, utc_accepts(secs, nanos))
    }
}

/// Ethernet (layer 2) frame.
#[derive(Debug, Clone, Copy, PartialEq, Eq)]
pub struct EthernetFrame {
    pub source_mac: [u8; 6],
    pub destination_mac: [u8; 6],
    pub ethertype: u16,
    pub frame_check_sequence: u32,
}

/// Fragmentation flags of an IPv4 header.
#[derive(Debug, Clone, Copy, PartialEq, Eq, Structural)]
pub struct IPv4Flags {
    pub reserved: bool,
    pub dont_fragment: bool,
    pub more_fragments: bool,
}

/// IPv4 (layer 3) packet header.
#[derive(Debug, Clone)]
pub struct IPv4Packet {
    pub version: u8,
    pub ihl: u8,
    pub dscp: u8,
    pub ecn: u8,
    pub total_length: u16,
    pub identification: u16,
    pub flags: IPv4Flags,
    pub fragment_offset: u16,
    pub ttl: u8,
    pub protocol: u8,
    pub header_checksum: u16,
    pub source_ip: [u8; 4],
    pub destination_ip: [u8; 4],
    pub options: Vec<u8>,
}

/// The eight control bits of a TCP header.
#[derive(Debug, Clone, Copy, PartialEq, Eq, Structural)]
pub struct TCPFlags {
    pub fin: bool,
    pub syn: bool,
    pub rst: bool,
    pub psh: bool,
    pub ack: bool,
    pub urg: bool,
    pub ece: bool,
    pub cwr: bool,
}

/// One TCP header option.
#[derive(Debug, Clone)]
pub struct TCPOption {
    pub kind: u8,
    pub length: u8,
    pub data: Vec<u8>,
}

/// TCP (layer 4) segment header.
#[derive(Debug, Clone)]
pub struct TCPSegment {
    pub source_port: u16,
    pub destination_port: u16,
    pub sequence_number: u32,
    pub acknowledgment_number: u32,
    pub data_offset: u8,
    pub flags: TCPFlags,
    pub window_size: u16,
    pub checksum: u16,
    pub urgent_pointer: u16,
    pub options: Vec<TCPOption>,
}

/// Application protocols that are told apart, and a free-form label for the rest.
#[derive(Debug, Clone)]
pub enum ApplicationProtocol {
    HTTP,
    HTTPS,
    FTP,
    SSH,
    SMTP,
    DNS,
    Custom(String),
}

/// Application layer: its classification and the raw payload.
#[derive(Debug, Clone)]
pub struct ApplicationData {
    pub protocol: ApplicationProtocol,
    pub payload: Vec<u8>,
}

/// One observed frame, layer by layer, at the moment it was captured.
#[derive(Debug, Clone)]
pub struct NetworkPacket {
    pub timestamp: Timestamp,
    pub ethernet_layer: EthernetFrame,
    pub ip_layer: IPv4Packet,
    pub tcp_layer: TCPSegment,
    pub application_layer: ApplicationData,
}

/// Two IPv4 headers hold the same values.
pub open spec fn same_ip(a: IPv4Packet, b: IPv4Packet) -> bool {
    &&& a.version == b.version
    &&& a.ihl == b.ihl
    &&& a.dscp == b.dscp
    &&& a.ecn == b.ecn
    &&& a.total_length == b.total_length
    &&& a.identification == b.identification
    &&& a.flags == b.flags
    &&& a.fragment_offset == b.fragment_offset
    &&& a.ttl == b.ttl
    &&& a.protocol == b.protocol
    &&& a.header_checksum == b.header_checksum
    &&& a.source_ip == b.source_ip
    &&& a.destination_ip == b.destination_ip
    &&& a.options@ == b.options@
}

/// Two TCP options hold the same values.
pub open spec fn same_option(a: TCPOption, b: TCPOption) -> bool {
    a.kind == b.kind && a.length == b.length && a.data@ == b.data@
}

/// Two TCP headers hold the same values.
pub open spec fn same_tcp(a: TCPSegment, b: TCPSegment) -> bool {
    &&& a.source_port == b.source_port
    &&& a.destination_port == b.destination_port
    &&& a.sequence_number == b.sequence_number
    &&& a.acknowledgment_number == b.acknowledgment_number
    &&& a.data_offset == b.data_offset
    &&& a.flags == b.flags
    &&& a.window_size == b.window_size
    &&& a.checksum == b.checksum
    &&& a.urgent_pointer == b.urgent_pointer
    &&& a.options@.len() == b.options@.len()
    &&& forall|i: int| 0 <= i < a.options@.len() ==> same_option(#[trigger] a.options@[i], b.options@[i])
}

/// Two application layers hold the same values.
pub open spec fn same_application(a: ApplicationData, b: ApplicationData) -> bool {
    a.protocol == b.protocol && a.payload@ == b.payload@
}

/// Two packets hold the same values, layer by layer.
pub open spec fn same_packet(a: NetworkPacket, b: NetworkPacket) -> bool {
    &&& a.timestamp == b.timestamp
    &&& a.ethernet_layer == b.ethernet_layer
    &&& same_ip(a.ip_layer, b.ip_layer)
    &&& same_tcp(a.tcp_layer, b.tcp_layer)
    &&& same_application(a.application_layer, b.application_layer)
}

pub(crate) fn copy_bytes(v: &Vec<u8>) -> (r: Vec<u8>)
    ensures
        r@ == v@,
{
    let r = v.clone();
    assert(r@ =~= v@);
    r
}

impl IPv4Packet {
    /// A copy holding the same values.
    pub fn duplicate(&self) -> (r: IPv4Packet)
        ensures
            same_ip(r, *self),
    {
        IPv4Packet {
            version: self.version,
            ihl: self.ihl,
            dscp: self.dscp,
            ecn: self.ecn,
            total_length: self.total_length,
            identification: self.identification,
            flags: self.flags,
            fragment_offset: self.fragment_offset,
            ttl: self.ttl,
            protocol: self.protocol,
            header_checksum: self.header_checksum,
            source_ip: self.source_ip,
            destination_ip: self.destination_ip,
            options: copy_bytes(&self.options),
        }
    }
}

impl TCPOption {
    /// A copy holding the same values.
    pub fn duplicate(&self) -> (r: TCPOption)
        ensures
            same_option(r, *self),
    {
        TCPOption { kind: self.kind, length: self.length, data: copy_bytes(&self.data) }
    }
}

impl TCPSegment {
    /// A copy holding the same values.
    pub fn duplicate(&self) -> (r: TCPSegment)
        ensures
            same_tcp(r, *self),
    {
        let mut options: Vec<TCPOption> = Vec::new();
        let mut i: usize = 0;
        while i < self.options.len()
            invariant
                i <= self.options@.len(),
                options@.len() == i,
                forall|j: int| 0 <= j < i ==> same_option(#[trigger] options@[j], self.options@[j]),
            decreases self.options@.len() - i,
        {
            options.push(self.options[i].duplicate());
            i = i + 1;
        }
        TCPSegment {
            source_port: self.source_port,
            destination_port: self.destination_port,
            sequence_number: self.sequence_number,
            acknowledgment_number: self.acknowledgment_number,
            data_offset: self.data_offset,
            flags: self.flags,
            window_size: self.window_size,
            checksum: self.checksum,
            urgent_pointer: self.urgent_pointer,
            options,
        }
    }
}

impl ApplicationProtocol {
    /// A copy holding the same value.
    pub fn duplicate(&self) -> (r: ApplicationProtocol)
        ensures
            r == *self,
    {
        match self {
            ApplicationProtocol::HTTP => ApplicationProtocol::HTTP,
            ApplicationProtocol::HTTPS => ApplicationProtocol::HTTPS,
            ApplicationProtocol::FTP => ApplicationProtocol::FTP,
            ApplicationProtocol::SSH => ApplicationProtocol::SSH,
            ApplicationProtocol::SMTP => ApplicationProtocol::SMTP,
            ApplicationProtocol::DNS => ApplicationProtocol::DNS,
            ApplicationProtocol::Custom(label) => ApplicationProtocol::Custom(label.clone()),
        }
    }
}

impl ApplicationData {
    /// A copy holding the same values.
    pub fn duplicate(&self) -> (r: ApplicationData)
        ensures
            same_application(r, *self),
    {
        ApplicationData { protocol: self.protocol.duplicate(), payload: copy_bytes(&self.payload) }
    }
}

/// Sum of the declared lengths of TCP options.
pub open spec fn options_length_sum(options: Seq<TCPOption>) -> nat
    decreases options.len(),
{
    if options.len() == 0 {
        0
    } else {
        options_length_sum(options.drop_last()) + options.last().length as nat
    }
}

/// Size in bytes of a packet: the fixed headers, the IPv4 options, the declared
/// TCP option lengths and the payload.
pub open spec fn packet_size(p: NetworkPacket) -> nat {
    ETHERNET_HEADER_LEN as nat + IPV4_HEADER_LEN as nat + p.ip_layer.options@.len()
        + TCP_HEADER_LEN as nat + options_length_sum(p.tcp_layer.options@)
        + p.application_layer.payload@.len()
}

/// Display name of an application protocol; a free-form label is its own name.
pub open spec fn protocol_label(p: ApplicationProtocol) -> Seq<char> {
    match p {
        ApplicationProtocol::HTTP => seq!['H', 'T', 'T', 'P'],
        ApplicationProtocol::HTTPS => seq!['H', 'T', 'T', 'P', 'S'],
        ApplicationProtocol::FTP => seq!['F', 'T', 'P'],
        ApplicationProtocol::SSH => seq!['S', 'S', 'H'],
        ApplicationProtocol::SMTP => seq!['S', 'M', 'T', 'P'],
        ApplicationProtocol::DNS => seq!['D', 'N', 'S'],
        ApplicationProtocol::Custom(label) => label@,
    }
}

proof fn lemma_options_prefix_le(options: Seq<TCPOption>, n: int)
    requires
        0 <= n <= options.len(),
    ensures
        options_length_sum(options.take(n)) <= options_length_sum(options),
    decreases options.len(),
{
    if n < options.len() {
        assert(options.drop_last().take(n) =~= options.take(n));
        lemma_options_prefix_le(options.drop_last(), n);
    } else {
        assert(options.take(n) =~= options);
    }
}

impl NetworkPacket {
    /// A copy holding the same values.
    pub fn duplicate(&self) -> (r: NetworkPacket)
        ensures
            same_packet(r, *self),
    {
        NetworkPacket {
            timestamp: self.timestamp,
            ethernet_layer: self.ethernet_layer,
            ip_layer: self.ip_layer.duplicate(),
            tcp_layer: self.tcp_layer.duplicate(),
            application_layer: self.application_layer.duplicate(),
        }
    }

    /// Total size in bytes: Ethernet header, IPv4 header with its options, TCP
    /// header with the declared option lengths, and the payload.
    pub fn total_size(&self) -> (r: usize)
        requires
            packet_size(*self) <= usize::MAX,
        ensures
            r == packet_size(*self),
    {
        let options = &self.tcp_layer.options;
        let mut sum: usize = 0;
        let mut i: usize = 0;
        while i < options.len()
            invariant
                i <= options@.len(),
                sum == options_length_sum(options@.take(i as int)),
                packet_size(*self) <= usize::MAX,
                options == &self.tcp_layer.options,
            decreases options@.len() - i,
        {
            proof {
                assert(options@.take(i + 1).drop_last() =~= options@.take(i as int));
                lemma_options_prefix_le(options@, i + 1);
            }
            sum = sum + options[i].length as usize;
            i = i + 1;
        }
        assert(options@.take(i as int) =~= options@);
        ETHERNET_HEADER_LEN + IPV4_HEADER_LEN + self.ip_layer.options.len() + TCP_HEADER_LEN + sum
            + self.application_layer.payload.len()
    }

    /// Whether the packet opens or closes a connection: SYN or FIN is set.
    pub fn is_handshake(&self) -> (r: bool)
        ensures
            r == (self.tcp_layer.flags.syn || self.tcp_layer.flags.fin),
    {
        self.tcp_layer.flags.syn || self.tcp_layer.flags.fin
    }

    /// Display name of the application protocol.
    pub fn get_protocol_string(&self) -> (r: String)
        ensures
            r@ == protocol_label(self.application_layer.protocol),
    {
        match &self.application_layer.protocol {
            ApplicationProtocol::HTTP => {
                proof { reveal_strlit("HTTP"); }
                "HTTP".to_owned()
            },
            ApplicationProtocol::HTTPS => {
                proof { reveal_strlit("HTTPS"); }
                "HTTPS".to_owned()
            },
            ApplicationProtocol::FTP => {
                proof { reveal_strlit("FTP"); }
                "FTP".to_owned()
            },
            ApplicationProtocol::SSH => {
                proof { reveal_strlit("SSH"); }
                "SSH".to_owned()
            },
            ApplicationProtocol::SMTP => {
                proof { reveal_strlit("SMTP"); }
                "SMTP".to_owned()
            },
            ApplicationProtocol::DNS => {
                proof { reveal_strlit("DNS"); }
                "DNS".to_owned()
            },
            ApplicationProtocol::Custom(label) => label.clone(),
        }
    }
}

proof fn lemma_options_sum_same(a: Seq<TCPOption>, b: Seq<TCPOption>)
    requires
        a.len() == b.len(),
        forall|i: int| 0 <= i < a.len() ==> #[trigger] a[i].length == b[i].length,
    ensures
        options_length_sum(a) == options_length_sum(b),
    decreases a.len(),
{
    if a.len() > 0 {
        lemma_options_sum_same(a.drop_last(), b.drop_last());
    }
}

/// The size of a packet is at least its fixed headers, and two packets whose
/// IPv4 and TCP headers hold the same values differ in size by exactly the
/// difference of their payload lengths.
pub proof fn lemma_size_tracks_payload(a: NetworkPacket, b: NetworkPacket)
    requires
        same_ip(a.ip_layer, b.ip_layer),
        same_tcp(a.tcp_layer, b.tcp_layer),
    ensures
        packet_size(a) >= ETHERNET_HEADER_LEN + IPV4_HEADER_LEN + TCP_HEADER_LEN,
        packet_size(b) - packet_size(a) == b.application_layer.payload@.len()
            - a.application_layer.payload@.len(),
{
    assert forall|i: int| 0 <= i < a.tcp_layer.options@.len() implies
        #[trigger] a.tcp_layer.options@[i].length == b.tcp_layer.options@[i].length by {
        assert(same_option(a.tcp_layer.options@[i], b.tcp_layer.options@[i]));
    }
    lemma_options_sum_same(a.tcp_layer.options@, b.tcp_layer.options@);
}

} // verus!
