use flowstat::counter::Count;
use flowstat::dissect::{dispatch, Dissection};
use flowstat::record::FlowRecord;
use flowstat::engine::Engine;
use flowstat::record::Protocol;
use flowstat::window::should_roll;

fn record_of(d: Dissection) -> Option<FlowRecord> {
    match d {
        Dissection::Parsed(r) => r,
        _ => None,
    }
}

fn eth_frame(ethertype: u16, payload: &[u8]) -> Vec<u8> {
    let mut f = vec![0u8; 12];
    f.push((ethertype >> 8) as u8);
    f.push((ethertype & 0xff) as u8);
    f.extend_from_slice(payload);
    f
}

fn ipv4_packet(proto: u8, src: [u8; 4], dst: [u8; 4], transport: &[u8]) -> Vec<u8> {
    let mut p = vec![0u8; 20];
    p[9] = proto;
    p[12..16].copy_from_slice(&src);
    p[16..20].copy_from_slice(&dst);
    p.extend_from_slice(transport);
    p
}

fn tcp_segment(sport: u16, dport: u16, flags: u8, total_len: usize) -> Vec<u8> {
    let mut t = vec![0u8; total_len];
    t[0] = (sport >> 8) as u8;
    t[1] = (sport & 0xff) as u8;
    t[2] = (dport >> 8) as u8;
    t[3] = (dport & 0xff) as u8;
    t[13] = flags;
    t
}

fn udp_datagram(sport: u16, dport: u16, total_len: usize) -> Vec<u8> {
    let mut t = vec![0u8; total_len];
    t[0] = (sport >> 8) as u8;
    t[1] = (sport & 0xff) as u8;
    t[2] = (dport >> 8) as u8;
    t[3] = (dport & 0xff) as u8;
    t
}

#[test]
fn syn_only_segment_moves_syn_alone() {
    let mut count = Count::new();
    let frame = eth_frame(
        0x0800,
        &ipv4_packet(6, [10, 0, 0, 1], [10, 0, 0, 2], &tcp_segment(1234, 80, 0x02, 40)),
    );
    let rec = record_of(dispatch(&frame, "t", &mut count));
    assert!(rec.is_some());
    assert_eq!(count.syn, 1);
    assert_eq!(count.ack, 0);
}

#[test]
fn syn_ack_segment_moves_both() {
    let mut count = Count::new();
    let frame = eth_frame(
        0x0800,
        &ipv4_packet(6, [10, 0, 0, 1], [10, 0, 0, 2], &tcp_segment(1234, 80, 0x12, 40)),
    );
    dispatch(&frame, "t", &mut count);
    assert_eq!(count.syn, 1);
    assert_eq!(count.ack, 1);
}

#[test]
fn ack_only_segment_moves_ack_alone() {
    let mut count = Count::new();
    let frame = eth_frame(
        0x0800,
        &ipv4_packet(6, [10, 0, 0, 1], [10, 0, 0, 2], &tcp_segment(1234, 80, 0x10, 40)),
    );
    dispatch(&frame, "t", &mut count);
    assert_eq!(count.syn, 0);
    assert_eq!(count.ack, 1);
}

#[test]
fn repeated_ports_count_once() {
    let mut count = Count::new();
    let frame = eth_frame(
        0x0800,
        &ipv4_packet(6, [10, 0, 0, 1], [10, 0, 0, 2], &tcp_segment(443, 51000, 0x02, 40)),
    );
    dispatch(&frame, "t", &mut count);
    dispatch(&frame, "t", &mut count);
    dispatch(&frame, "t", &mut count);
    let snap = count.snapshot_and_reset();
    assert_eq!(snap.distinct_port_count, 2);
    assert_eq!(snap.syn, 3);
}

#[test]
fn same_port_both_ends_counts_once() {
    let mut count = Count::new();
    let frame = eth_frame(
        0x0800,
        &ipv4_packet(17, [10, 0, 0, 1], [10, 0, 0, 2], &udp_datagram(53, 53, 30)),
    );
    dispatch(&frame, "t", &mut count);
    let snap = count.snapshot_and_reset();
    assert_eq!(snap.distinct_port_count, 1);
}

#[test]
fn second_snapshot_is_all_zero() {
    let mut count = Count::new();
    let frame = eth_frame(
        0x0800,
        &ipv4_packet(6, [10, 0, 0, 1], [10, 0, 0, 2], &tcp_segment(443, 51000, 0x12, 60)),
    );
    dispatch(&frame, "t", &mut count);
    let first = count.snapshot_and_reset();
    assert_eq!(first.syn, 1);
    let second = count.snapshot_and_reset();
    assert_eq!(second.syn, 0);
    assert_eq!(second.ack, 0);
    assert_eq!(second.arp, 0);
    assert_eq!(second.icmp, 0);
    assert_eq!(second.traffic, 0);
    assert_eq!(second.distinct_port_count, 0);
}

#[test]
fn rollover_wraps_around_the_hour() {
    assert!(should_roll(59, 0));
    assert!(!should_roll(12, 12));
    assert!(should_roll(12, 13));
}

#[test]
fn ipv4_tcp_end_to_end() {
    let mut engine = Engine::new(7);
    let frame = eth_frame(
        0x0800,
        &ipv4_packet(6, [192, 168, 0, 9], [10, 1, 2, 3], &tcp_segment(443, 51000, 0x02, 60)),
    );
    let (rec, snap) = engine.process_frame(&frame, "2024-01-01 00:07:00", 7);
    assert!(snap.is_none());
    let rec = rec.expect("a TCP frame yields a record");
    assert_eq!(rec.protocol, Protocol::Tcp);
    assert_eq!(rec.source_address, "192.168.0.9");
    assert_eq!(rec.destination_address, "10.1.2.3");
    assert_eq!(rec.source_port, Some(443));
    assert_eq!(rec.destination_port, Some(51000));
    let (_, snap) = engine.process_frame(&eth_frame(0x9999, &[]), "t", 8);
    let snap = snap.expect("a changed minute rolls the window");
    assert_eq!(snap.syn, 1);
    assert_eq!(snap.ack, 0);
    assert_eq!(snap.traffic, 60 + 14);
    assert_eq!(snap.distinct_port_count, 2);
}

#[test]
fn tcp_traffic_counts_the_segment_size() {
    let mut count = Count::new();
    let frame = eth_frame(
        0x0800,
        &ipv4_packet(6, [192, 168, 0, 9], [10, 1, 2, 3], &tcp_segment(443, 51000, 0x02, 60)),
    );
    dispatch(&frame, "t", &mut count);
    let snap = count.snapshot_and_reset();
    assert_eq!(snap.syn, 1);
    assert_eq!(snap.ack, 0);
    assert_eq!(snap.traffic, 60);
    assert_eq!(snap.distinct_port_count, 2);
}

#[test]
fn arp_frame_counts_arp_alone() {
    let mut count = Count::new();
    let frame = eth_frame(0x0806, &[0u8; 28]);
    let rec = record_of(dispatch(&frame, "t", &mut count));
    assert!(rec.is_none());
    assert_eq!(count.arp, 1);
    assert_eq!(count.syn, 0);
    assert_eq!(count.ack, 0);
    assert_eq!(count.icmp, 0);
    assert_eq!(count.traffic, 0);
    assert_eq!(count.port.len(), 0);
}

#[test]
fn truncated_ipv4_header_changes_nothing() {
    let mut count = Count::new();
    let frame = eth_frame(0x0800, &[0u8; 10]);
    let rec = record_of(dispatch(&frame, "t", &mut count));
    assert!(rec.is_none());
    assert_eq!(count.syn, 0);
    assert_eq!(count.ack, 0);
    assert_eq!(count.arp, 0);
    assert_eq!(count.icmp, 0);
    assert_eq!(count.traffic, 0);
    assert_eq!(count.port.len(), 0);
}

#[test]
fn truncated_tcp_header_changes_nothing() {
    let mut count = Count::new();
    let frame = eth_frame(
        0x0800,
        &ipv4_packet(6, [10, 0, 0, 1], [10, 0, 0, 2], &[0u8; 12]),
    );
    let rec = record_of(dispatch(&frame, "t", &mut count));
    assert!(rec.is_none());
    assert_eq!(count.syn, 0);
    assert_eq!(count.traffic, 0);
}

#[test]
fn unknown_ethertype_counts_frame_size_only() {
    let mut count = Count::new();
    let frame = eth_frame(0x88cc, &[0u8; 50]);
    let rec = record_of(dispatch(&frame, "t", &mut count));
    assert!(rec.is_none());
    assert_eq!(count.traffic, 64);
    assert_eq!(count.syn, 0);
    assert_eq!(count.port.len(), 0);
}

#[test]
fn short_link_header_counts_as_unclassified() {
    let mut count = Count::new();
    let frame = vec![0u8; 9];
    let rec = record_of(dispatch(&frame, "t", &mut count));
    assert!(rec.is_none());
    assert_eq!(count.traffic, 9);
}

#[test]
fn icmp_packet_counts_icmp_and_yields_addresses() {
    let mut count = Count::new();
    let frame = eth_frame(
        0x0800,
        &ipv4_packet(1, [8, 8, 8, 8], [192, 168, 1, 1], &[0u8; 8]),
    );
    let rec = record_of(dispatch(&frame, "t", &mut count)).expect("ICMP yields a record");
    assert_eq!(rec.protocol, Protocol::Icmp);
    assert_eq!(rec.source_address, "8.8.8.8");
    assert_eq!(rec.destination_address, "192.168.1.1");
    assert_eq!(rec.source_port, None);
    assert_eq!(rec.destination_port, None);
    assert_eq!(count.icmp, 1);
    assert_eq!(count.traffic, 0);
}

#[test]
fn udp_datagram_end_to_end() {
    let mut count = Count::new();
    let frame = eth_frame(
        0x0800,
        &ipv4_packet(17, [1, 2, 3, 4], [5, 6, 7, 8], &udp_datagram(5353, 5353, 48)),
    );
    let rec = record_of(dispatch(&frame, "t", &mut count)).expect("UDP yields a record");
    assert_eq!(rec.protocol, Protocol::Udp);
    assert_eq!(rec.source_port, Some(5353));
    assert_eq!(rec.destination_port, Some(5353));
    assert_eq!(count.traffic, 48);
    assert_eq!(count.syn, 0);
}

#[test]
fn ipv6_tcp_end_to_end() {
    let mut count = Count::new();
    let mut p = vec![0u8; 40];
    p[6] = 6;
    p[8] = 0x20;
    p[9] = 0x01;
    p[10] = 0x0d;
    p[11] = 0xb8;
    p[23] = 0x01;
    p[39] = 0x02;
    p.extend_from_slice(&tcp_segment(8080, 443, 0x10, 32));
    let frame = eth_frame(0x86dd, &p);
    let rec = record_of(dispatch(&frame, "t", &mut count)).expect("an IPv6 TCP frame yields a record");
    assert_eq!(rec.protocol, Protocol::Tcp);
    assert_eq!(rec.source_address, "2001:db8:0:0:0:0:0:1");
    assert_eq!(rec.destination_address, "0:0:0:0:0:0:0:2");
    assert_eq!(count.ack, 1);
    assert_eq!(count.syn, 0);
    assert_eq!(count.traffic, 32);
}

#[test]
fn ipv6_unknown_next_header_changes_nothing() {
    let mut count = Count::new();
    let mut p = vec![0u8; 40];
    p[6] = 58;
    let frame = eth_frame(0x86dd, &p);
    let rec = record_of(dispatch(&frame, "t", &mut count));
    assert!(rec.is_none());
    assert_eq!(count.traffic, 0);
    assert_eq!(count.icmp, 0);
}

#[test]
fn rollover_snapshot_includes_current_frame() {
    let mut engine = Engine::new(59);
    let frame = eth_frame(
        0x0800,
        &ipv4_packet(6, [10, 0, 0, 1], [10, 0, 0, 2], &tcp_segment(1, 2, 0x02, 20)),
    );
    let (rec, snap) = engine.process_frame(&frame, "t", 0);
    assert!(rec.is_some());
    let snap = snap.expect("59 to 0 still rolls the window");
    assert_eq!(snap.syn, 1);
    assert_eq!(snap.distinct_port_count, 2);
    assert_eq!(engine.count.syn, 0);
    assert_eq!(engine.count.port.len(), 0);
    assert_eq!(engine.last_minute, 0);
}

#[test]
fn outcome_tags_tell_failures_apart() {
    let mut count = Count::new();
    let truncated_ipv4 = eth_frame(0x0800, &[0u8; 10]);
    assert!(matches!(
        dispatch(&truncated_ipv4, "t", &mut count),
        Dissection::TooShort
    ));
    let unknown_proto = eth_frame(0x0800, &ipv4_packet(99, [1, 1, 1, 1], [2, 2, 2, 2], &[0u8; 8]));
    assert!(matches!(
        dispatch(&unknown_proto, "t", &mut count),
        Dissection::UnsupportedProtocol
    ));
    let unknown_ethertype = eth_frame(0x88cc, &[]);
    assert!(matches!(
        dispatch(&unknown_ethertype, "t", &mut count),
        Dissection::UnsupportedProtocol
    ));
    let short_link = vec![0u8; 5];
    assert!(matches!(dispatch(&short_link, "t", &mut count), Dissection::TooShort));
    let arp = eth_frame(0x0806, &[0u8; 28]);
    assert!(matches!(dispatch(&arp, "t", &mut count), Dissection::Parsed(None)));
    let truncated_tcp = eth_frame(0x0800, &ipv4_packet(6, [1, 1, 1, 1], [2, 2, 2, 2], &[0u8; 12]));
    assert!(matches!(
        dispatch(&truncated_tcp, "t", &mut count),
        Dissection::TooShort
    ));
}

#[test]
fn live_clock_minute_is_below_sixty() {
    let mut engine = Engine::new(99);
    let frame = eth_frame(0x0806, &[0u8; 28]);
    let (rec, snap) = engine.process_frame_now(&frame);
    assert!(rec.is_none());
    let snap = snap.expect("99 is no minute-of-hour, so the first frame rolls");
    assert_eq!(snap.arp, 1);
    assert!(engine.last_minute < 60);
}
