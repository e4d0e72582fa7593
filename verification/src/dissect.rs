use crate::counter::{ports_after, Count};
use crate::record::{FlowRecord, Protocol};
use crate::text::{format_ipv4, format_ipv6, ipv4_text, ipv6_text};
use vstd::prelude::*;
use vstd::slice::{slice_index_get, slice_subrange};

verus! {

pub const ETH_HEADER_LEN: usize = 14;

pub const IPV4_HEADER_LEN: usize = 20;

pub const IPV6_HEADER_LEN: usize = 40;

pub const TCP_HEADER_LEN: usize = 20;

pub const UDP_HEADER_LEN: usize = 8;

pub const ETHERTYPE_IPV4: u16 = 0x0800;

pub const ETHERTYPE_ARP: u16 = 0x0806;

pub const ETHERTYPE_IPV6: u16 = 0x86DD;

pub const IPPROTO_ICMP: u8 = 1;

pub const IPPROTO_TCP: u8 = 6;

pub const IPPROTO_UDP: u8 = 17;

pub const TCP_FLAG_SYN: u8 = 0x02;

pub const TCP_FLAG_ACK: u8 = 0x10;

/// The big-endian 16-bit value at offset `i` of `b`.
pub open spec fn be16(b: Seq<u8>, i: int) -> int
    recommends
        0 <= i,
        i + 2 <= b.len(),
{
    b[i] * 256 + b[i + 1]
}

/// What one frame does to the window counters: how much each counter grows
/// and which ports are observed, in order.
pub ghost struct FrameEffect {
    pub syn: int,
    pub ack: int,
    pub icmp: int,
    pub arp: int,
    pub traffic: int,
    pub ports: Seq<i32>,
}

/// The flow record one frame yields, if any, with addresses already as text.
pub ghost struct RecordModel {
    pub protocol: Protocol,
    pub source_address: Seq<char>,
    pub destination_address: Seq<char>,
    pub source_port: Option<u16>,
    pub destination_port: Option<u16>,
}

/// A frame that touches no counter.
pub open spec fn no_effect() -> FrameEffect {
    FrameEffect { syn: 0, ack: 0, icmp: 0, arp: 0, traffic: 0, ports: Seq::<i32>::empty() }
}

/// A frame outside the handled ethertypes: only its on-wire size is
/// accounted, as background traffic volume.
pub open spec fn unclassified_effect(size: int) -> FrameEffect {
    FrameEffect { syn: 0, ack: 0, icmp: 0, arp: 0, traffic: size, ports: Seq::<i32>::empty() }
}

/// An ARP frame: the ARP counter alone moves.
pub open spec fn arp_effect() -> FrameEffect {
    FrameEffect { syn: 0, ack: 0, icmp: 0, arp: 1, traffic: 0, ports: Seq::<i32>::empty() }
}

/// An ICMP packet: the ICMP counter alone moves.
pub open spec fn icmp_effect() -> FrameEffect {
    FrameEffect { syn: 0, ack: 0, icmp: 1, arp: 0, traffic: 0, ports: Seq::<i32>::empty() }
}

/// What a TCP segment does to the counters: SYN and ACK move with their flag
/// bits, independently; both ports are observed, source first; the segment's
/// own byte size is accounted. A truncated header does nothing.
pub open spec fn tcp_effect(t: Seq<u8>) -> FrameEffect {
    if t.len() < TCP_HEADER_LEN {
        no_effect()
    } else {
        FrameEffect {
            syn: if t[13] & TCP_FLAG_SYN != 0 {
                1
            } else {
                0
            },
            ack: if t[13] & TCP_FLAG_ACK != 0 {
                1
            } else {
                0
            },
            icmp: 0,
            arp: 0,
            traffic: t.len() as int,
            ports: seq![be16(t, 0) as i32, be16(t, 2) as i32],
        }
    }
}

/// What a UDP datagram does to the counters: both ports are observed, source
/// first, and the datagram's byte size is accounted. A truncated header does
/// nothing.
pub open spec fn udp_effect(t: Seq<u8>) -> FrameEffect {
    if t.len() < UDP_HEADER_LEN {
        no_effect()
    } else {
        FrameEffect {
            syn: 0,
            ack: 0,
            icmp: 0,
            arp: 0,
            traffic: t.len() as int,
            ports: seq![be16(t, 0) as i32, be16(t, 2) as i32],
        }
    }
}

/// What an IPv4 packet does to the counters, by its protocol field.
pub open spec fn ipv4_effect(p: Seq<u8>) -> FrameEffect {
    if p.len() < IPV4_HEADER_LEN {
        no_effect()
    } else if p[9] == IPPROTO_TCP {
        tcp_effect(p.skip(IPV4_HEADER_LEN as int))
    } else if p[9] == IPPROTO_UDP {
        udp_effect(p.skip(IPV4_HEADER_LEN as int))
    } else if p[9] == IPPROTO_ICMP {
        icmp_effect()
    } else {
        no_effect()
    }
}

/// What an IPv6 packet does to the counters, by its next-header field.
/// Only TCP and UDP are followed; there is no ICMP path here.
pub open spec fn ipv6_effect(p: Seq<u8>) -> FrameEffect {
    if p.len() < IPV6_HEADER_LEN {
        no_effect()
    } else if p[6] == IPPROTO_TCP {
        tcp_effect(p.skip(IPV6_HEADER_LEN as int))
    } else if p[6] == IPPROTO_UDP {
        udp_effect(p.skip(IPV6_HEADER_LEN as int))
    } else {
        no_effect()
    }
}

/// What one raw frame does to the counters. A buffer too short for the
/// link-layer header, like an unhandled ethertype, is accounted as
/// unclassified traffic volume only.
pub open spec fn frame_effect(f: Seq<u8>) -> FrameEffect {
    if f.len() < ETH_HEADER_LEN {
        unclassified_effect(f.len() as int)
    } else if be16(f, 12) == ETHERTYPE_IPV4 {
        ipv4_effect(f.skip(ETH_HEADER_LEN as int))
    } else if be16(f, 12) == ETHERTYPE_IPV6 {
        ipv6_effect(f.skip(ETH_HEADER_LEN as int))
    } else if be16(f, 12) == ETHERTYPE_ARP {
        arp_effect()
    } else {
        unclassified_effect(f.len() as int)
    }
}

/// The source address text of an IPv4 header.
pub open spec fn ipv4_src_text(p: Seq<u8>) -> Seq<char> {
    ipv4_text(p[12], p[13], p[14], p[15])
}

/// The destination address text of an IPv4 header.
pub open spec fn ipv4_dst_text(p: Seq<u8>) -> Seq<char> {
    ipv4_text(p[16], p[17], p[18], p[19])
}

/// The eight 16-bit groups of an IPv6 address stored at offset `base`.
pub open spec fn ipv6_groups(p: Seq<u8>, base: int) -> Seq<u16> {
    Seq::new(8, |i: int| be16(p, base + 2 * i) as u16)
}

/// The record a TCP segment yields: both ports, the addresses as given.
pub open spec fn tcp_record(t: Seq<u8>, src: Seq<char>, dst: Seq<char>) -> Option<RecordModel> {
    if t.len() < TCP_HEADER_LEN {
        Option::None
    } else {
        Option::Some(
            RecordModel {
                protocol: Protocol::Tcp,
                source_address: src,
                destination_address: dst,
                source_port: Option::Some(be16(t, 0) as u16),
                destination_port: Option::Some(be16(t, 2) as u16),
            },
        )
    }
}

/// The record a UDP datagram yields.
pub open spec fn udp_record(t: Seq<u8>, src: Seq<char>, dst: Seq<char>) -> Option<RecordModel> {
    if t.len() < UDP_HEADER_LEN {
        Option::None
    } else {
        Option::Some(
            RecordModel {
                protocol: Protocol::Udp,
                source_address: src,
                destination_address: dst,
                source_port: Option::Some(be16(t, 0) as u16),
                destination_port: Option::Some(be16(t, 2) as u16),
            },
        )
    }
}

/// The record an IPv4 packet yields, if its transport layer is handled and
/// intact: ICMP records carry the addresses alone.
pub open spec fn ipv4_record(p: Seq<u8>) -> Option<RecordModel> {
    if p.len() < IPV4_HEADER_LEN {
        Option::None
    } else if p[9] == IPPROTO_TCP {
        tcp_record(p.skip(IPV4_HEADER_LEN as int), ipv4_src_text(p), ipv4_dst_text(p))
    } else if p[9] == IPPROTO_UDP {
        udp_record(p.skip(IPV4_HEADER_LEN as int), ipv4_src_text(p), ipv4_dst_text(p))
    } else if p[9] == IPPROTO_ICMP {
        Option::Some(
            RecordModel {
                protocol: Protocol::Icmp,
                source_address: ipv4_src_text(p),
                destination_address: ipv4_dst_text(p),
                source_port: Option::None,
                destination_port: Option::None,
            },
        )
    } else {
        Option::None
    }
}

/// The record an IPv6 packet yields, if its transport layer is handled and
/// intact.
pub open spec fn ipv6_record(p: Seq<u8>) -> Option<RecordModel> {
    if p.len() < IPV6_HEADER_LEN {
        Option::None
    } else if p[6] == IPPROTO_TCP {
        tcp_record(
            p.skip(IPV6_HEADER_LEN as int),
            ipv6_text(ipv6_groups(p, 8)),
            ipv6_text(ipv6_groups(p, 24)),
        )
    } else if p[6] == IPPROTO_UDP {
        udp_record(
            p.skip(IPV6_HEADER_LEN as int),
            ipv6_text(ipv6_groups(p, 8)),
            ipv6_text(ipv6_groups(p, 24)),
        )
    } else {
        Option::None
    }
}

/// The record one raw frame yields, if any.
pub open spec fn frame_record(f: Seq<u8>) -> Option<RecordModel> {
    if f.len() < ETH_HEADER_LEN {
        Option::None
    } else if be16(f, 12) == ETHERTYPE_IPV4 {
        ipv4_record(f.skip(ETH_HEADER_LEN as int))
    } else if be16(f, 12) == ETHERTYPE_IPV6 {
        ipv6_record(f.skip(ETH_HEADER_LEN as int))
    } else {
        Option::None
    }
}

/// How one dissection step ended, as a bare tag.
#[derive(Clone, Copy, Debug, PartialEq, Eq, Structural)]
pub enum OutcomeTag {
    Parsed,
    TooShort,
    UnsupportedProtocol,
}

/// One layer's tagged outcome: a parsed frame with its record, if the layer
/// yields one; a buffer too short for the layer's header; or a protocol
/// value outside the handled set. Parsing is best-effort either way, but the
/// outcome is inspectable rather than discarded.
pub enum Dissection {
    Parsed(Option<FlowRecord>),
    TooShort,
    UnsupportedProtocol,
}

/// The bare tag of a dissection outcome.
pub open spec fn dissection_tag(d: Dissection) -> OutcomeTag {
    match d {
        Dissection::Parsed(_) => OutcomeTag::Parsed,
        Dissection::TooShort => OutcomeTag::TooShort,
        Dissection::UnsupportedProtocol => OutcomeTag::UnsupportedProtocol,
    }
}

/// How the TCP layer ends on segment `t`.
pub open spec fn tcp_tag(t: Seq<u8>) -> OutcomeTag {
    if t.len() < TCP_HEADER_LEN {
        OutcomeTag::TooShort
    } else {
        OutcomeTag::Parsed
    }
}

/// How the UDP layer ends on datagram `t`.
pub open spec fn udp_tag(t: Seq<u8>) -> OutcomeTag {
    if t.len() < UDP_HEADER_LEN {
        OutcomeTag::TooShort
    } else {
        OutcomeTag::Parsed
    }
}

/// How the IPv4 layer ends on packet `p`: a truncated transport header also
/// reads as too short; an unhandled protocol value as unsupported.
pub open spec fn ipv4_tag(p: Seq<u8>) -> OutcomeTag {
    if p.len() < IPV4_HEADER_LEN {
        OutcomeTag::TooShort
    } else if p[9] == IPPROTO_TCP {
        tcp_tag(p.skip(IPV4_HEADER_LEN as int))
    } else if p[9] == IPPROTO_UDP {
        udp_tag(p.skip(IPV4_HEADER_LEN as int))
    } else if p[9] == IPPROTO_ICMP {
        OutcomeTag::Parsed
    } else {
        OutcomeTag::UnsupportedProtocol
    }
}

/// How the IPv6 layer ends on packet `p`.
pub open spec fn ipv6_tag(p: Seq<u8>) -> OutcomeTag {
    if p.len() < IPV6_HEADER_LEN {
        OutcomeTag::TooShort
    } else if p[6] == IPPROTO_TCP {
        tcp_tag(p.skip(IPV6_HEADER_LEN as int))
    } else if p[6] == IPPROTO_UDP {
        udp_tag(p.skip(IPV6_HEADER_LEN as int))
    } else {
        OutcomeTag::UnsupportedProtocol
    }
}

/// How one raw frame's dissection ends: an ARP frame parses (with no
/// record); an unhandled ethertype is unsupported.
pub open spec fn frame_tag(f: Seq<u8>) -> OutcomeTag {
    if f.len() < ETH_HEADER_LEN {
        OutcomeTag::TooShort
    } else if be16(f, 12) == ETHERTYPE_IPV4 {
        ipv4_tag(f.skip(ETH_HEADER_LEN as int))
    } else if be16(f, 12) == ETHERTYPE_IPV6 {
        ipv6_tag(f.skip(ETH_HEADER_LEN as int))
    } else if be16(f, 12) == ETHERTYPE_ARP {
        OutcomeTag::Parsed
    } else {
        OutcomeTag::UnsupportedProtocol
    }
}

/// The counters can take one more frame of size `extra` without any integer
/// reaching its bound.
pub open spec fn can_absorb(c: Count, extra: int) -> bool {
    &&& c.syn < i32::MAX
    &&& c.ack < i32::MAX
    &&& c.icmp < i32::MAX
    &&& c.arp < i32::MAX
    &&& c.traffic + extra <= i128::MAX
    &&& forall|p: i32| c.port@.contains_key(p) ==> c.port@[p] < i32::MAX - 1
}

/// The counters moved from `pre` to `post` exactly as the effect `e` says.
pub open spec fn applied(pre: Count, post: Count, e: FrameEffect) -> bool {
    &&& post.syn == pre.syn + e.syn
    &&& post.ack == pre.ack + e.ack
    &&& post.icmp == pre.icmp + e.icmp
    &&& post.arp == pre.arp + e.arp
    &&& post.traffic == pre.traffic + e.traffic
    &&& post.port@ == ports_after(pre.port@, e.ports)
}

/// The returned record agrees with the model `m`, with `ts` as its timestamp.
pub open spec fn rec_matches(r: Option<FlowRecord>, m: Option<RecordModel>, ts: Seq<char>) -> bool {
    match (r, m) {
        (Option::None, Option::None) => true,
        (Option::Some(rec), Option::Some(mm)) => {
            &&& rec.protocol == mm.protocol
            &&& rec.timestamp@ == ts
            &&& rec.source_address@ == mm.source_address
            &&& rec.destination_address@ == mm.destination_address
            &&& rec.source_port == mm.source_port
            &&& rec.destination_port == mm.destination_port
        },
        _ => false,
    }
}

/// The big-endian 16-bit field at offset `i` of `b`.
fn read_u16_be(b: &[u8], i: usize) -> (r: u16)
    requires
        i + 2 <= b@.len(),
    ensures
        r as int == be16(b@, i as int),
{
    // Pins the slice's length to a machine word, which bounds `i + 1` below.
    let _len = b.len();
    let hi = *slice_index_get(b, i);
    let lo = *slice_index_get(b, i + 1);
    (hi as u16) * 256 + (lo as u16)
}

/// Process a TCP segment: move the SYN and ACK counters by their flag bits,
/// observe both ports, account the segment's byte size, and emit a record.
/// A segment shorter than its fixed header does nothing and reads too short.
pub fn tcp_handler(
    transport: &[u8],
    source_address: String,
    destination_address: String,
    timestamp: &str,
    count: &mut Count,
) -> (r: Dissection)
    requires
        can_absorb(*old(count), transport@.len() as int),
    ensures
        applied(*old(count), *final(count), tcp_effect(transport@)),
        dissection_tag(r) == tcp_tag(transport@),
        r matches Dissection::Parsed(ro) ==> rec_matches(
            ro,
            tcp_record(transport@, source_address@, destination_address@),
            timestamp@,
        ),
{
    if transport.len() < TCP_HEADER_LEN {
        proof {
            assert(count.port@ =~= ports_after(count.port@, Seq::<i32>::empty()));
        }
        return Dissection::TooShort;
    }
    let flags = *slice_index_get(transport, 13);
    if flags & TCP_FLAG_SYN != 0 {
        count.syn_up();
    }
    if flags & TCP_FLAG_ACK != 0 {
        count.ack_up();
    }
    let sport = read_u16_be(transport, 0);
    let dport = read_u16_be(transport, 2);
    count.add_port(sport as i32);
    count.add_port(dport as i32);
    count.traffic_up(transport.len() as i128);
    proof {
        crate::counter::lemma_ports_after_pair(old(count).port@, sport as i32, dport as i32);
        assert(tcp_effect(transport@).ports =~= seq![sport as i32, dport as i32]);
        assert(count.port@ == ports_after(old(count).port@, tcp_effect(transport@).ports));
    }
    Dissection::Parsed(
        Option::Some(
            FlowRecord {
                timestamp: timestamp.to_owned(),
                protocol: Protocol::Tcp,
                source_address,
                destination_address,
                source_port: Option::Some(sport),
                destination_port: Option::Some(dport),
            },
        ),
    )
}

/// Process a UDP datagram: observe both ports, account its byte size, and
/// emit a record. A datagram shorter than its header does nothing and reads
/// too short.
pub fn udp_handler(
    transport: &[u8],
    source_address: String,
    destination_address: String,
    timestamp: &str,
    count: &mut Count,
) -> (r: Dissection)
    requires
        can_absorb(*old(count), transport@.len() as int),
    ensures
        applied(*old(count), *final(count), udp_effect(transport@)),
        dissection_tag(r) == udp_tag(transport@),
        r matches Dissection::Parsed(ro) ==> rec_matches(
            ro,
            udp_record(transport@, source_address@, destination_address@),
            timestamp@,
        ),
{
    if transport.len() < UDP_HEADER_LEN {
        proof {
            assert(count.port@ =~= ports_after(count.port@, Seq::<i32>::empty()));
        }
        return Dissection::TooShort;
    }
    count.traffic_up(transport.len() as i128);
    let sport = read_u16_be(transport, 0);
    let dport = read_u16_be(transport, 2);
    count.add_port(sport as i32);
    count.add_port(dport as i32);
    proof {
        crate::counter::lemma_ports_after_pair(old(count).port@, sport as i32, dport as i32);
        assert(udp_effect(transport@).ports =~= seq![sport as i32, dport as i32]);
        assert(count.port@ == ports_after(old(count).port@, udp_effect(transport@).ports));
    }
    Dissection::Parsed(
        Option::Some(
            FlowRecord {
                timestamp: timestamp.to_owned(),
                protocol: Protocol::Udp,
                source_address,
                destination_address,
                source_port: Option::Some(sport),
                destination_port: Option::Some(dport),
            },
        ),
    )
}

/// Process an ICMP packet: the ICMP counter alone moves, and the record
/// carries only the network addresses; type and code are not parsed.
pub fn icmp_handler(
    source_address: String,
    destination_address: String,
    timestamp: &str,
    count: &mut Count,
) -> (r: FlowRecord)
    requires
        old(count).icmp < i32::MAX,
    ensures
        applied(*old(count), *final(count), icmp_effect()),
        r.protocol == Protocol::Icmp,
        r.timestamp@ == timestamp@,
        r.source_address@ == source_address@,
        r.destination_address@ == destination_address@,
        r.source_port is None,
        r.destination_port is None,
{
    count.icmp_up();
    proof {
        assert(count.port@ =~= ports_after(old(count).port@, Seq::<i32>::empty()));
    }
    FlowRecord {
        timestamp: timestamp.to_owned(),
        protocol: Protocol::Icmp,
        source_address,
        destination_address,
        source_port: Option::None,
        destination_port: Option::None,
    }
}

/// Dissect an IPv4 packet: read the protocol field and the two addresses
/// from the fixed 20-byte header (options are not walked) and hand the rest
/// to the transport layer. A truncated or unhandled packet does nothing,
/// and the outcome says which of the two it was.
pub fn ipv4_handler(p: &[u8], timestamp: &str, count: &mut Count) -> (r: Dissection)
    requires
        can_absorb(*old(count), p@.len() as int),
    ensures
        applied(*old(count), *final(count), ipv4_effect(p@)),
        dissection_tag(r) == ipv4_tag(p@),
        r matches Dissection::Parsed(ro) ==> rec_matches(ro, ipv4_record(p@), timestamp@),
{
    if p.len() < IPV4_HEADER_LEN {
        proof {
            assert(count.port@ =~= ports_after(count.port@, Seq::<i32>::empty()));
        }
        return Dissection::TooShort;
    }
    let proto = *slice_index_get(p, 9);
    if proto == IPPROTO_TCP || proto == IPPROTO_UDP {
        let src = format_ipv4(
            *slice_index_get(p, 12),
            *slice_index_get(p, 13),
            *slice_index_get(p, 14),
            *slice_index_get(p, 15),
        );
        let dst = format_ipv4(
            *slice_index_get(p, 16),
            *slice_index_get(p, 17),
            *slice_index_get(p, 18),
            *slice_index_get(p, 19),
        );
        let rest = slice_subrange(p, IPV4_HEADER_LEN, p.len());
        proof {
            assert(rest@ =~= p@.skip(IPV4_HEADER_LEN as int));
        }
        if proto == IPPROTO_TCP {
            tcp_handler(rest, src, dst, timestamp, count)
        } else {
            udp_handler(rest, src, dst, timestamp, count)
        }
    } else if proto == IPPROTO_ICMP {
        let src = format_ipv4(
            *slice_index_get(p, 12),
            *slice_index_get(p, 13),
            *slice_index_get(p, 14),
            *slice_index_get(p, 15),
        );
        let dst = format_ipv4(
            *slice_index_get(p, 16),
            *slice_index_get(p, 17),
            *slice_index_get(p, 18),
            *slice_index_get(p, 19),
        );
        Dissection::Parsed(Option::Some(icmp_handler(src, dst, timestamp, count)))
    } else {
        proof {
            assert(count.port@ =~= ports_after(count.port@, Seq::<i32>::empty()));
        }
        Dissection::UnsupportedProtocol
    }
}

/// Read the eight address groups stored at offset `base` of an IPv6 header.
fn read_ipv6_groups(p: &[u8], base: usize) -> (r: Vec<u16>)
    requires
        base + 16 <= p@.len(),
    ensures
        r@ == ipv6_groups(p@, base as int),
{
    // Pins the slice's length to a machine word, which bounds `base + 2 * i`.
    let _len = p.len();
    let mut r: Vec<u16> = Vec::new();
    let mut i: usize = 0;
    while i < 8
        invariant
            i <= 8,
            base + 16 <= p@.len(),
            p@.len() <= usize::MAX,
            r@.len() == i,
            forall|j: int| 0 <= j < i ==> r@[j] as int == be16(p@, base + 2 * j),
        decreases 8 - i,
    {
        let g = read_u16_be(p, base + 2 * i);
        r.push(g);
        i = i + 1;
    }
    proof {
        assert(r@ =~= ipv6_groups(p@, base as int));
    }
    r
}

/// Dissect an IPv6 packet: read the next-header field and the two addresses
/// from the fixed 40-byte header (extension headers are not walked) and hand
/// the rest to the transport layer. Only TCP and UDP are followed.
pub fn ipv6_handler(p: &[u8], timestamp: &str, count: &mut Count) -> (r: Dissection)
    requires
        can_absorb(*old(count), p@.len() as int),
    ensures
        applied(*old(count), *final(count), ipv6_effect(p@)),
        dissection_tag(r) == ipv6_tag(p@),
        r matches Dissection::Parsed(ro) ==> rec_matches(ro, ipv6_record(p@), timestamp@),
{
    if p.len() < IPV6_HEADER_LEN {
        proof {
            assert(count.port@ =~= ports_after(count.port@, Seq::<i32>::empty()));
        }
        return Dissection::TooShort;
    }
    let next = *slice_index_get(p, 6);
    if next == IPPROTO_TCP || next == IPPROTO_UDP {
        let src_groups = read_ipv6_groups(p, 8);
        let dst_groups = read_ipv6_groups(p, 24);
        let src = format_ipv6(&src_groups);
        let dst = format_ipv6(&dst_groups);
        let rest = slice_subrange(p, IPV6_HEADER_LEN, p.len());
        proof {
            assert(rest@ =~= p@.skip(IPV6_HEADER_LEN as int));
        }
        if next == IPPROTO_TCP {
            tcp_handler(rest, src, dst, timestamp, count)
        } else {
            udp_handler(rest, src, dst, timestamp, count)
        }
    } else {
        proof {
            assert(count.port@ =~= ports_after(count.port@, Seq::<i32>::empty()));
        }
        Dissection::UnsupportedProtocol
    }
}

/// Process an ARP frame: the ARP counter alone moves; the payload is not
/// decoded.
pub fn arp_handler(count: &mut Count)
    requires
        old(count).arp < i32::MAX,
    ensures
        applied(*old(count), *final(count), arp_effect()),
{
    count.arp_up();
    proof {
        assert(count.port@ =~= ports_after(old(count).port@, Seq::<i32>::empty()));
    }
}

/// Walk one raw frame down through its protocol layers: route by ethertype
/// to the IPv4, IPv6 or ARP path, account anything else (including a buffer
/// too short for the link-layer header) as unclassified traffic volume, fold
/// the outcome into the counters, and yield at most one flow record.
pub fn dispatch(frame: &[u8], timestamp: &str, count: &mut Count) -> (r: Dissection)
    requires
        can_absorb(*old(count), frame@.len() as int),
    ensures
        applied(*old(count), *final(count), frame_effect(frame@)),
        dissection_tag(r) == frame_tag(frame@),
        r matches Dissection::Parsed(ro) ==> rec_matches(ro, frame_record(frame@), timestamp@),
        !(r is Parsed) ==> frame_record(frame@) is None,
{
    if frame.len() < ETH_HEADER_LEN {
        count.traffic_up(frame.len() as i128);
        proof {
            assert(count.port@ =~= ports_after(old(count).port@, Seq::<i32>::empty()));
        }
        return Dissection::TooShort;
    }
    let ethertype = read_u16_be(frame, 12);
    if ethertype == ETHERTYPE_IPV4 || ethertype == ETHERTYPE_IPV6 {
        let payload = slice_subrange(frame, ETH_HEADER_LEN, frame.len());
        proof {
            assert(payload@ =~= frame@.skip(ETH_HEADER_LEN as int));
        }
        if ethertype == ETHERTYPE_IPV4 {
            ipv4_handler(payload, timestamp, count)
        } else {
            ipv6_handler(payload, timestamp, count)
        }
    } else if ethertype == ETHERTYPE_ARP {
        arp_handler(count);
        Dissection::Parsed(Option::None)
    } else {
        count.traffic_up(frame.len() as i128);
        proof {
            assert(count.port@ =~= ports_after(old(count).port@, Seq::<i32>::empty()));
        }
        Dissection::UnsupportedProtocol
    }
}

/// One frame moves each event counter by at most one and accounts at most
/// its own on-wire byte size, never a negative amount: counters only grow,
/// and by bounded steps.
pub proof fn lemma_frame_effect_bounds(f: Seq<u8>)
    ensures
        0 <= frame_effect(f).syn <= 1,
        0 <= frame_effect(f).ack <= 1,
        0 <= frame_effect(f).icmp <= 1,
        0 <= frame_effect(f).arp <= 1,
        0 <= frame_effect(f).traffic <= f.len(),
{
}

/// Flag policy, SYN alone: a well-formed TCP segment whose SYN bit is set and
/// whose ACK bit is clear moves the SYN counter by exactly one and leaves the
/// ACK counter unchanged.
pub proof fn lemma_syn_only_segment(t: Seq<u8>)
    requires
        t.len() >= TCP_HEADER_LEN,
        t[13] & TCP_FLAG_SYN != 0,
        t[13] & TCP_FLAG_ACK == 0,
    ensures
        tcp_effect(t).syn == 1,
        tcp_effect(t).ack == 0,
{
}

/// Flag policy, non-exclusive: a well-formed TCP segment with both SYN and
/// ACK bits set moves both counters by exactly one.
pub proof fn lemma_syn_ack_segment(t: Seq<u8>)
    requires
        t.len() >= TCP_HEADER_LEN,
        t[13] & TCP_FLAG_SYN != 0,
        t[13] & TCP_FLAG_ACK != 0,
    ensures
        tcp_effect(t).syn == 1,
        tcp_effect(t).ack == 1,
{
}

} // verus!
