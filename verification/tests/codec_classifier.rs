use orb8::classifier::{classify_packet, network_probe, network_probe_egress, observe_packet, TC_ACT_OK};
use orb8::common::{decode_event, encode_event, NetworkFlowEvent, EVENT_SIZE};
use orb8::probe_loader::poll_events;
use orb8::ring::EventRing;

fn sample_event() -> NetworkFlowEvent {
    NetworkFlowEvent {
        timestamp_ns: 123_456_789,
        cgroup_id: 42,
        src_ip: 0x0100000A,
        dst_ip: 0x0200000A,
        src_port: 80,
        dst_port: 5000,
        protocol: 6,
        direction: 1,
        packet_len: 100,
    }
}

/// A minimal Ethernet+IPv4+TCP frame: 20-byte IP header, ports 80 -> 5000,
/// addresses 10.0.0.1 -> 10.0.0.2.
fn tcp_packet() -> Vec<u8> {
    let mut p = vec![0u8; 38];
    p[12] = 0x08;
    p[13] = 0x00;
    p[14] = 0x45; // version 4, header length 5 words
    p[23] = 6; // TCP
    p[26] = 10;
    p[27] = 0;
    p[28] = 0;
    p[29] = 1;
    p[30] = 10;
    p[31] = 0;
    p[32] = 0;
    p[33] = 2;
    p[34] = 0;
    p[35] = 80; // source port 80
    p[36] = 0x13;
    p[37] = 0x88; // destination port 5000
    p
}

#[test]
fn test_event_codec_round_trip() {
    let ev = sample_event();
    let bytes = encode_event(&ev);
    assert_eq!(bytes.len(), EVENT_SIZE);
    assert_eq!(decode_event(bytes.as_slice()), Some(ev));
}

#[test]
fn test_decode_rejects_wrong_size() {
    assert_eq!(decode_event(&[0u8; 31]), None);
    assert_eq!(decode_event(&[0u8; 33]), None);
    assert_eq!(decode_event(&[]), None);
}

#[test]
fn test_classify_tcp_packet() {
    let p = tcp_packet();
    let ev = classify_packet(p.as_slice(), 555, 1).expect("parses");
    assert_eq!(ev.timestamp_ns, 555);
    assert_eq!(ev.cgroup_id, 0);
    assert_eq!(ev.src_ip, 0x0100000A);
    assert_eq!(ev.dst_ip, 0x0200000A);
    assert_eq!(ev.src_port, 80);
    assert_eq!(ev.dst_port, 5000);
    assert_eq!(ev.protocol, 6);
    assert_eq!(ev.direction, 1);
    assert_eq!(ev.packet_len, 38);
}

#[test]
fn test_classify_rejects_short_and_foreign() {
    assert_eq!(classify_packet(&[0u8; 33], 1, 0), None);
    let mut arp = tcp_packet();
    arp[12] = 0x08;
    arp[13] = 0x06; // not IPv4
    assert_eq!(classify_packet(arp.as_slice(), 1, 0), None);
    let mut bad_ihl = tcp_packet();
    bad_ihl[14] = 0x44; // header length 16 < 20
    assert_eq!(classify_packet(bad_ihl.as_slice(), 1, 0), None);
}

#[test]
fn test_classify_icmp_has_zero_ports() {
    let mut p = tcp_packet();
    p[23] = 1; // ICMP
    let ev = classify_packet(p.as_slice(), 9, 0).expect("parses");
    assert_eq!(ev.src_port, 0);
    assert_eq!(ev.dst_port, 0);
    assert_eq!(ev.protocol, 1);
    assert_eq!(ev.direction, 0);
}

#[test]
fn test_observe_packet_always_passes_and_fills_ring() {
    let mut ring = EventRing::new(1);
    let p = tcp_packet();
    assert_eq!(network_probe(&mut ring, p.as_slice(), 1), TC_ACT_OK);
    assert_eq!(ring.len(), 1);
    // the ring is full now: the record is dropped, the packet still passes
    assert_eq!(network_probe_egress(&mut ring, p.as_slice(), 2), TC_ACT_OK);
    assert_eq!(ring.len(), 1);
    // a non-IPv4 packet emits nothing and still passes
    assert_eq!(observe_packet(&mut ring, &[0u8; 10], 3, 0), TC_ACT_OK);
    assert_eq!(ring.len(), 1);
}

#[test]
fn test_ring_drains_in_submission_order() {
    let mut ring = EventRing::new(8);
    let mut e1 = sample_event();
    e1.timestamp_ns = 1;
    let mut e2 = sample_event();
    e2.timestamp_ns = 2;
    assert!(ring.try_push(e1));
    assert!(ring.try_push(e2));
    let drained = ring.drain(10);
    assert_eq!(drained.len(), 2);
    assert_eq!(drained[0].timestamp_ns, 1);
    assert_eq!(drained[1].timestamp_ns, 2);
    assert_eq!(ring.len(), 0);
    assert_eq!(ring.pop(), None);
}

#[test]
fn test_poll_events_counts_malformed() {
    let ev = sample_event();
    let good = encode_event(&ev);
    let batch = vec![good.clone(), vec![1, 2, 3], good.clone(), vec![0u8; 31]];
    let (events, malformed) = poll_events(&batch);
    assert_eq!(events.len(), 2);
    assert_eq!(malformed, 2);
    assert_eq!(events[0], ev);
}
