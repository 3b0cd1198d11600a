use vstd::prelude::*;

use crate::packet::{same_packet, NetworkPacket, Timestamp};

verus! {

/// One direction of a conversation: the ports and addresses of the packet
/// that opened it.
#[derive(Debug, Clone, Copy, PartialEq, Eq)]
pub struct FlowKey {
    pub source_port: u16,
    pub destination_port: u16,
    pub source_ip: [u8; 4],
    pub destination_ip: [u8; 4],
}

/// One reconstructed TCP conversation.
#[derive(Debug, Clone)]
pub struct TCPSession {
    pub source_port: u16,
    pub destination_port: u16,
    pub source_ip: [u8; 4],
    pub destination_ip: [u8; 4],
    pub start_timestamp: Timestamp,
    pub end_timestamp: Option<Timestamp>,
    pub packets: Vec<NetworkPacket>,
}

/// What a session is, in terms of the packets it has gathered.
pub ghost struct SessionModel {
    pub key: FlowKey,
    pub start: Timestamp,
    pub end: Option<Timestamp>,
    pub members: Seq<NetworkPacket>,
}

/// The key of the flow that a packet travels on, as seen from its sender.
pub open spec fn forward_key(p: NetworkPacket) -> FlowKey {
    FlowKey {
        source_port: p.tcp_layer.source_port,
        destination_port: p.tcp_layer.destination_port,
        source_ip: p.ip_layer.source_ip,
        destination_ip: p.ip_layer.destination_ip,
    }
}

/// The key of the flow that a packet answers, as seen from the side that opened it.
pub open spec fn reverse_key(p: NetworkPacket) -> FlowKey {
    FlowKey {
        source_port: p.tcp_layer.destination_port,
        destination_port: p.tcp_layer.source_port,
        source_ip: p.ip_layer.destination_ip,
        destination_ip: p.ip_layer.source_ip,
    }
}

/// Index of the session with key `k`, or -1 where there is none.
pub open spec fn key_index(ss: Seq<SessionModel>, k: FlowKey) -> int
    decreases ss.len(),
{
    if ss.len() == 0 {
        -1
    } else if ss.last().key == k {
        ss.len() - 1
    } else {
        key_index(ss.drop_last(), k)
    }
}

/// The sessions with `p` appended to the packets of the one at `j`.
pub open spec fn add_member(ss: Seq<SessionModel>, j: int, p: NetworkPacket) -> Seq<SessionModel> {
    ss.update(j, SessionModel { members: ss[j].members.push(p), ..ss[j] })
}

/// A SYN opens the session of its forward key, unless it exists, and joins it.
pub open spec fn after_open(ss: Seq<SessionModel>, p: NetworkPacket) -> Seq<SessionModel> {
    if p.tcp_layer.flags.syn {
        let j = key_index(ss, forward_key(p));
        if j >= 0 {
            add_member(ss, j, p)
        } else {
            ss.push(
                SessionModel {
                    key: forward_key(p),
                    start: p.timestamp,
                    end: None,
                    members: seq![p],
                },
            )
        }
    } else {
        ss
    }
}

/// A FIN closes the session of its reverse key, where one exists and has no
/// end yet, and joins it.
pub open spec fn after_close(ss: Seq<SessionModel>, p: NetworkPacket) -> Seq<SessionModel> {
    let j = key_index(ss, reverse_key(p));
    if p.tcp_layer.flags.fin && j >= 0 {
        let s = ss[j];
        ss.update(
            j,
            SessionModel {
                end: if s.end is None {
                    Some(p.timestamp)
                } else {
                    s.end
                },
                members: s.members.push(p),
                ..s
            },
        )
    } else {
        ss
    }
}

/// Every session that exists gathers `p`.
pub open spec fn after_track(ss: Seq<SessionModel>, p: NetworkPacket) -> Seq<SessionModel> {
    ss.map_values(|s: SessionModel| SessionModel { members: s.members.push(p), ..s })
}

/// The sessions after one more packet.
pub open spec fn step(ss: Seq<SessionModel>, p: NetworkPacket) -> Seq<SessionModel> {
    after_track(after_close(after_open(ss, p), p), p)
}

/// The sessions that a sequence of packets gives, read in order.
pub open spec fn reconstruct(ps: Seq<NetworkPacket>) -> Seq<SessionModel>
    decreases ps.len(),
{
    if ps.len() == 0 {
        seq![]
    } else {
        step(reconstruct(ps.drop_last()), ps.last())
    }
}

/// The key of a session record.
pub open spec fn session_key(s: TCPSession) -> FlowKey {
    FlowKey {
        source_port: s.source_port,
        destination_port: s.destination_port,
        source_ip: s.source_ip,
        destination_ip: s.destination_ip,
    }
}

/// A session record holds what the model says.
pub open spec fn session_matches(s: TCPSession, m: SessionModel) -> bool {
    &&& session_key(s) == m.key
    &&& s.start_timestamp == m.start
    &&& s.end_timestamp == m.end
    &&& s.packets@.len() == m.members.len()
    &&& forall|i: int| 0 <= i < m.members.len() ==> same_packet(#[trigger] s.packets@[i], m.members[i])
}

/// Session records that hold, one by one, what the models say.
pub open spec fn sessions_match(xs: Seq<TCPSession>, ms: Seq<SessionModel>) -> bool {
    xs.len() == ms.len() && forall|i: int| 0 <= i < ms.len() ==> session_matches(#[trigger] xs[i], ms[i])
}

proof fn lemma_key_index(ss: Seq<SessionModel>, k: FlowKey)
    ensures
        -1 <= key_index(ss, k) < ss.len(),
        key_index(ss, k) >= 0 ==> ss[key_index(ss, k)].key == k,
        forall|j: int| key_index(ss, k) < j < ss.len() ==> #[trigger] ss[j].key != k,
    decreases ss.len(),
{
    if ss.len() > 0 {
        lemma_key_index(ss.drop_last(), k);
        assert forall|j: int| key_index(ss, k) < j < ss.len() implies #[trigger] ss[j].key != k by {
            if j < ss.len() - 1 {
                assert(ss[j] == ss.drop_last()[j]);
            }
        }
    }
}

fn key_of(p: &NetworkPacket, forward: bool) -> (r: FlowKey)
    ensures
        r == (if forward { forward_key(*p) } else { reverse_key(*p) }),
{
    if forward {
        FlowKey {
            source_port: p.tcp_layer.source_port,
            destination_port: p.tcp_layer.destination_port,
            source_ip: p.ip_layer.source_ip,
            destination_ip: p.ip_layer.destination_ip,
        }
    } else {
        FlowKey {
            source_port: p.tcp_layer.destination_port,
            destination_port: p.tcp_layer.source_port,
            source_ip: p.ip_layer.destination_ip,
            destination_ip: p.ip_layer.source_ip,
        }
    }
}

fn same_address(a: &[u8; 4], b: &[u8; 4]) -> (r: bool)
    ensures
        r == (*a == *b),
{
    let r = a[0] == b[0] && a[1] == b[1] && a[2] == b[2] && a[3] == b[3];
    if r {
        assert(*a =~= *b);
    }
    r
}

fn has_key(s: &TCPSession, k: &FlowKey) -> (r: bool)
    ensures
        r == (session_key(*s) == *k),
{
    s.source_port == k.source_port && s.destination_port == k.destination_port
        && same_address(&s.source_ip, &k.source_ip) && same_address(&s.destination_ip, &k.destination_ip)
}

/// Position of the session with key `k`, searched from the most recent.
fn find_key(sessions: &Vec<TCPSession>, k: &FlowKey, Ghost(ms): Ghost<Seq<SessionModel>>) -> (r: Option<usize>)
    requires
        sessions_match(sessions@, ms),
    ensures
        match r {
            Some(j) => j == key_index(ms, *k) && j < sessions@.len() && ms[j as int].key == *k,
            None => key_index(ms, *k) == -1,
        },
{
    proof { lemma_key_index(ms, *k); }
    let mut i: usize = sessions.len();
    while i > 0
        invariant
            i <= sessions@.len(),
            sessions_match(sessions@, ms),
            key_index(ms, *k) < i,
            key_index(ms, *k) >= 0 ==> ms[key_index(ms, *k)].key == *k,
            forall|j: int| key_index(ms, *k) < j < ms.len() ==> #[trigger] ms[j].key != *k,
        decreases i,
    {
        i = i - 1;
        assert(session_matches(sessions@[i as int], ms[i as int]));
        if has_key(&sessions[i], k) {
            return Some(i);
        }
    }
    None
}

/// Groups packets into TCP sessions, reading them once, in order.
///
/// A packet with SYN set opens a session under its forward key (source port,
/// destination port, source address, destination address), unless one exists,
/// and is appended to it; the start time is that of the first such packet.
/// A packet with FIN set looks up the session under its reverse key; where one
/// exists, the packet's time becomes its end time unless an end time is set
/// already, and the packet is appended to it. Then every session that exists
/// gathers the packet, whatever its flow. A packet that both opens or closes a
/// session and is gathered appears in it once for each rule that applies.
/// Sessions come out in the order they were opened.
pub fn find_tcp_sessions(packets: &[NetworkPacket]) -> (r: Vec<TCPSession>)
    ensures
        sessions_match(r@, reconstruct(packets@)),
{
    let mut sessions: Vec<TCPSession> = Vec::new();
    let mut i: usize = 0;
    while i < packets.len()
        invariant
            i <= packets@.len(),
            sessions_match(sessions@, reconstruct(packets@.take(i as int))),
        decreases packets@.len() - i,
    {
        let packet = &packets[i];
        let ghost before = reconstruct(packets@.take(i as int));
        proof {
            assert(packets@.take(i + 1).drop_last() =~= packets@.take(i as int));
        }
        let ghost opened = after_open(before, *packet);
        if packet.tcp_layer.flags.syn {
            let key = key_of(packet, true);
            match find_key(&sessions, &key, Ghost(before)) {
                Some(j) => {
                    sessions[j].packets.push(packet.duplicate());
                },
                None => {
                    let mut members: Vec<NetworkPacket> = Vec::new();
                    members.push(packet.duplicate());
                    sessions.push(
                        TCPSession {
                            source_port: key.source_port,
                            destination_port: key.destination_port,
                            source_ip: key.source_ip,
                            destination_ip: key.destination_ip,
                            start_timestamp: packet.timestamp,
                            end_timestamp: None,
                            packets: members,
                        },
                    );
                    proof {
                        assert forall|l: int| 0 <= l < opened.len() implies
                            session_matches(#[trigger] sessions@[l], opened[l]) by {
                            if l < before.len() {
                                assert(session_matches(sessions@[l], before[l]));
                            }
                        }
                    }
                },
            }
        }
        assert(sessions_match(sessions@, opened));
        let ghost closed = after_close(opened, *packet);
        if packet.tcp_layer.flags.fin {
            let key = key_of(packet, false);
            match find_key(&sessions, &key, Ghost(opened)) {
                Some(j) => {
                    if sessions[j].end_timestamp.is_none() {
                        sessions[j].end_timestamp = Some(packet.timestamp);
                    }
                    sessions[j].packets.push(packet.duplicate());
                },
                None => {},
            }
        }
        assert(sessions_match(sessions@, closed));
        let ghost tracked_all = after_track(closed, *packet);
        let mut j: usize = 0;
        while j < sessions.len()
            invariant
                j <= sessions@.len(),
                sessions@.len() == closed.len(),
                tracked_all == after_track(closed, *packet),
                forall|l: int| 0 <= l < j ==> session_matches(#[trigger] sessions@[l], tracked_all[l]),
                forall|l: int| j <= l < sessions@.len() ==> session_matches(#[trigger] sessions@[l], closed[l]),
            decreases sessions@.len() - j,
        {
            sessions[j].packets.push(packet.duplicate());
            j = j + 1;
        }
        i = i + 1;
    }
    assert(packets@.take(i as int) =~= packets@);
    sessions
}

/// Every session that reconstruction gives holds at least one packet, and no
/// two sessions share a key.
pub proof fn lemma_sessions_nonempty_and_distinct(ps: Seq<NetworkPacket>)
    ensures
        forall|i: int| 0 <= i < reconstruct(ps).len() ==> #[trigger] reconstruct(ps)[i].members.len() > 0,
        forall|i: int, j: int|
            0 <= i < j < reconstruct(ps).len() ==> #[trigger] reconstruct(ps)[i].key != #[trigger] reconstruct(ps)[j].key,
    decreases ps.len(),
{
    if ps.len() > 0 {
        let before = reconstruct(ps.drop_last());
        let p = ps.last();
        lemma_sessions_nonempty_and_distinct(ps.drop_last());
        lemma_key_index(before, forward_key(p));
        let opened = after_open(before, p);
        lemma_key_index(opened, reverse_key(p));
        let closed = after_close(opened, p);
        assert forall|i: int, j: int| 0 <= i < j < opened.len() implies #[trigger] opened[i].key != #[trigger] opened[j].key by {
            if j == before.len() {
                assert(opened[i].key == before[i].key);
            }
        }
        assert(closed.len() == opened.len());
        assert forall|i: int| 0 <= i < closed.len() implies #[trigger] closed[i].key == opened[i].key
            && closed[i].members.len() > 0 by {
            if i < before.len() {
                assert(before[i].members.len() > 0);
            }
        }
    }
}

/// A packet sent back along a flow, its ports and addresses swapped, has as
/// reverse key the forward key of the packet that opened the flow.
pub proof fn lemma_reverse_of_reply_is_forward(opening: NetworkPacket, reply: NetworkPacket)
    requires
        reply.tcp_layer.source_port == opening.tcp_layer.destination_port,
        reply.tcp_layer.destination_port == opening.tcp_layer.source_port,
        reply.ip_layer.source_ip == opening.ip_layer.destination_ip,
        reply.ip_layer.destination_ip == opening.ip_layer.source_ip,
    ensures
        reverse_key(reply) == forward_key(opening),
{
}

/// A packet that does not open a session and closes none that exists, such as
/// a FIN with no session under its reverse key, opens, closes and rekeys
/// nothing: each session only gathers the packet.
pub proof fn lemma_unmatched_close_changes_no_session(ss: Seq<SessionModel>, p: NetworkPacket)
    requires
        !p.tcp_layer.flags.syn,
        key_index(ss, reverse_key(p)) == -1,
    ensures
        step(ss, p).len() == ss.len(),
        forall|i: int| 0 <= i < ss.len() ==> {
            &&& (#[trigger] step(ss, p)[i]).key == ss[i].key
            &&& step(ss, p)[i].start == ss[i].start
            &&& step(ss, p)[i].end == ss[i].end
            &&& step(ss, p)[i].members == ss[i].members.push(p)
        },
{
}

} // verus!
