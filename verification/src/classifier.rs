//! The packet classifier: the per-packet parse run at the
//! traffic-control hooks, with every read bounds-checked against the
//! packet's end.
//!
//! The parse accepts IPv4 over Ethernet, reads the 5-tuple, and emits a
//! fixed-layout event record; anything else — too short, another
//! EtherType, a bad header length, a truncated header — produces no
//! record. Whatever happens, the packet passes: observation never
//! interferes with forwarding.

use vstd::prelude::*;
use crate::common::NetworkFlowEvent;
use crate::direction::{EGRESS, INGRESS};
use crate::protocol::{TCP, UDP};
use crate::ring::EventRing;

verus! {

/// The traffic-control verdict that lets the packet continue.
pub const TC_ACT_OK: i32 = 0;

/// The Ethernet header length.
pub const ETH_HDR_LEN: usize = 14;

/// The least IPv4 header length.
pub const MIN_IP_HDR_LEN: usize = 20;

/// The wire length field of a record: the packet length, stopping at
/// the largest 16-bit value.
pub open spec fn wire_len(n: nat) -> u16 {
    if n <= 0xFFFF {
        n as u16
    } else {
        0xFFFF
    }
}

/// The event record a packet parses to, or nothing when the packet is
/// not a well-formed IPv4-over-Ethernet frame. Addresses land with their
/// first wire octet in the least-significant byte; ports are read
/// big-endian from the transport header, and stay zero for protocols
/// without ports.
pub open spec fn classify_spec(p: Seq<u8>, timestamp_ns: u64, dir: u8) -> Option<
    NetworkFlowEvent,
> {
    if p.len() < 34 {
        None
    } else if !(p[12] == 0x08 && p[13] == 0x00) {
        None
    } else {
        let ihl = (p[14] & 0x0F) * 4;
        if ihl < 20 {
            None
        } else if 14 + ihl > p.len() {
            None
        } else {
            let protocol = p[23];
            let src_ip = (p[26] as u32) | ((p[27] as u32) << 8) | ((p[28] as u32) << 16) | ((
            p[29] as u32) << 24);
            let dst_ip = (p[30] as u32) | ((p[31] as u32) << 8) | ((p[32] as u32) << 16) | ((
            p[33] as u32) << 24);
            if protocol == TCP || protocol == UDP {
                let t = 14 + ihl;
                if t + 4 > p.len() {
                    None
                } else {
                    Some(
                        NetworkFlowEvent {
                            timestamp_ns,
                            cgroup_id: 0,
                            src_ip,
                            dst_ip,
                            src_port: ((p[t] as u16) << 8) | (p[t + 1] as u16),
                            dst_port: ((p[t + 2] as u16) << 8) | (p[t + 3] as u16),
                            protocol,
                            direction: dir,
                            packet_len: wire_len(p.len()),
                        },
                    )
                }
            } else {
                Some(
                    NetworkFlowEvent {
                        timestamp_ns,
                        cgroup_id: 0,
                        src_ip,
                        dst_ip,
                        src_port: 0,
                        dst_port: 0,
                        protocol,
                        direction: dir,
                        packet_len: wire_len(p.len()),
                    },
                )
            }
        }
    }
}

/// Parse one packet. Every read is bounds-checked; a packet that is not
/// well-formed IPv4 over Ethernet yields no record.
pub fn classify_packet(p: &[u8], timestamp_ns: u64, dir: u8) -> (r: Option<NetworkFlowEvent>)
    ensures
        r == classify_spec(p@, timestamp_ns, dir),
{
    if p.len() < ETH_HDR_LEN + MIN_IP_HDR_LEN {
        return None;
    }
    // EtherType at offset 12 must be 0x0800 (IPv4)
    if !(p[12] == 0x08 && p[13] == 0x00) {
        return None;
    }
    // the low nibble of the IP header's first byte is its length in
    // 32-bit words
    let ihl = ((p[14] & 0x0F) as usize) * 4;
    if ihl < MIN_IP_HDR_LEN {
        return None;
    }
    if p.len() < ETH_HDR_LEN + ihl {
        return None;
    }
    let protocol = p[23];
    let src_ip = (p[26] as u32) | ((p[27] as u32) << 8) | ((p[28] as u32) << 16) | ((
    p[29] as u32) << 24);
    let dst_ip = (p[30] as u32) | ((p[31] as u32) << 8) | ((p[32] as u32) << 16) | ((
    p[33] as u32) << 24);
    let packet_len: u16 = if p.len() <= 0xFFFF {
        p.len() as u16
    } else {
        0xFFFF
    };
    let (src_port, dst_port) = if protocol == TCP || protocol == UDP {
        let t = ETH_HDR_LEN + ihl;
        if p.len() < t + 4 {
            return None;
        }
        (((p[t] as u16) << 8) | (p[t + 1] as u16), ((p[t + 2] as u16) << 8) | (p[t + 3] as u16))
    } else {
        (0, 0)
    };
    Some(
        NetworkFlowEvent {
            timestamp_ns,
            cgroup_id: 0,
            src_ip,
            dst_ip,
            src_port,
            dst_port,
            protocol,
            direction: dir,
            packet_len,
        },
    )
}

/// Classify a packet and submit the record to the ring. The verdict is
/// always pass, whatever came of observation; a full ring drops the
/// record silently.
pub fn observe_packet(ring: &mut EventRing, p: &[u8], timestamp_ns: u64, dir: u8) -> (r: i32)
    requires
        old(ring).wf(),
    ensures
        r == TC_ACT_OK,
        final(ring).wf(),
        final(ring).cap() == old(ring).cap(),
        match classify_spec(p@, timestamp_ns, dir) {
            None => final(ring).view() == old(ring).view(),
            Some(ev) => final(ring).view() == if old(ring).view().len() < old(ring).cap() {
                old(ring).view().push(ev)
            } else {
                old(ring).view()
            },
        },
{
    if let Some(ev) = classify_packet(p, timestamp_ns, dir) {
        let _submitted = ring.try_push(ev);
    }
    TC_ACT_OK
}

/// The ingress entry point: classify with direction 0.
pub fn network_probe(ring: &mut EventRing, p: &[u8], timestamp_ns: u64) -> (r: i32)
    requires
        old(ring).wf(),
    ensures
        r == TC_ACT_OK,
        final(ring).wf(),
        final(ring).cap() == old(ring).cap(),
        match classify_spec(p@, timestamp_ns, INGRESS) {
            None => final(ring).view() == old(ring).view(),
            Some(ev) => final(ring).view() == if old(ring).view().len() < old(ring).cap() {
                old(ring).view().push(ev)
            } else {
                old(ring).view()
            },
        },
{
    observe_packet(ring, p, timestamp_ns, INGRESS)
}

/// The egress entry point: classify with direction 1.
pub fn network_probe_egress(ring: &mut EventRing, p: &[u8], timestamp_ns: u64) -> (r: i32)
    requires
        old(ring).wf(),
    ensures
        r == TC_ACT_OK,
        final(ring).wf(),
        final(ring).cap() == old(ring).cap(),
        match classify_spec(p@, timestamp_ns, EGRESS) {
            None => final(ring).view() == old(ring).view(),
            Some(ev) => final(ring).view() == if old(ring).view().len() < old(ring).cap() {
                old(ring).view().push(ev)
            } else {
                old(ring).view()
            },
        },
{
    observe_packet(ring, p, timestamp_ns, EGRESS)
}

} // verus!
