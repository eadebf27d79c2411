//! Event records shared across the kernel/user boundary.
//!
//! A `NetworkFlowEvent` is a fixed 32-byte record in native little-endian
//! layout; the encoder and decoder here are the single point of truth for
//! that layout, and a round-trip lemma pins them against each other.

use vstd::prelude::*;
use vstd::bytes::{
    spec_u16_from_le_bytes, spec_u32_from_le_bytes, spec_u64_from_le_bytes, spec_u16_to_le_bytes,
    spec_u32_to_le_bytes, spec_u64_to_le_bytes,
    u16_from_le_bytes, u16_to_le_bytes, u32_from_le_bytes, u32_to_le_bytes, u64_from_le_bytes,
    u64_to_le_bytes, lemma_auto_spec_u16_to_from_le_bytes, lemma_auto_spec_u32_to_from_le_bytes,
    lemma_auto_spec_u64_to_from_le_bytes,
};
use vstd::slice::slice_subrange;

verus! {

/// Size in bytes of an encoded `NetworkFlowEvent`.
pub const EVENT_SIZE: usize = 32;

/// Simple packet event (legacy record kept for backward compatibility).
#[derive(Clone, Copy, Debug, PartialEq, Eq, Structural)]
pub struct PacketEvent {
    pub timestamp_ns: u64,
    pub packet_len: u32,
    pub _padding: u32,
}

/// Network flow event with full 5-tuple and container identification.
///
/// IPv4 addresses are stored with the first octet in the least-significant
/// byte: 10.0.0.5 is stored as 0x0500000A. Ports are in host byte order,
/// 0 for protocols without ports. `direction` is 0 for ingress, 1 for
/// egress. `packet_len` is the wire length in bytes.
#[derive(Clone, Copy, Debug, PartialEq, Eq, Structural)]
pub struct NetworkFlowEvent {
    pub timestamp_ns: u64,
    pub cgroup_id: u64,
    pub src_ip: u32,
    pub dst_ip: u32,
    pub src_port: u16,
    pub dst_port: u16,
    pub protocol: u8,
    pub direction: u8,
    pub packet_len: u16,
}

/// The 32-byte wire image of an event record: every field in little-endian
/// order at a fixed offset.
pub open spec fn event_bytes(ev: NetworkFlowEvent) -> Seq<u8> {
    spec_u64_to_le_bytes(ev.timestamp_ns) + spec_u64_to_le_bytes(ev.cgroup_id)
        + spec_u32_to_le_bytes(ev.src_ip) + spec_u32_to_le_bytes(ev.dst_ip)
        + spec_u16_to_le_bytes(ev.src_port) + spec_u16_to_le_bytes(ev.dst_port)
        + seq![ev.protocol] + seq![ev.direction] + spec_u16_to_le_bytes(ev.packet_len)
}

/// The record held in a 32-byte wire image: every field read
/// little-endian from its fixed offset.
pub open spec fn record_of_bytes(b: Seq<u8>) -> NetworkFlowEvent {
    NetworkFlowEvent {
        timestamp_ns: spec_u64_from_le_bytes(b.subrange(0, 8)),
        cgroup_id: spec_u64_from_le_bytes(b.subrange(8, 16)),
        src_ip: spec_u32_from_le_bytes(b.subrange(16, 20)),
        dst_ip: spec_u32_from_le_bytes(b.subrange(20, 24)),
        src_port: spec_u16_from_le_bytes(b.subrange(24, 26)),
        dst_port: spec_u16_from_le_bytes(b.subrange(26, 28)),
        protocol: b[28],
        direction: b[29],
        packet_len: spec_u16_from_le_bytes(b.subrange(30, 32)),
    }
}

/// Encode an event record into its 32-byte wire image.
pub fn encode_event(ev: &NetworkFlowEvent) -> (r: Vec<u8>)
    ensures
        r@ == event_bytes(*ev),
        r@.len() == EVENT_SIZE,
{
    proof {
        lemma_auto_spec_u64_to_from_le_bytes();
        lemma_auto_spec_u32_to_from_le_bytes();
        lemma_auto_spec_u16_to_from_le_bytes();
    }
    let mut r: Vec<u8> = Vec::new();
    let mut ts = u64_to_le_bytes(ev.timestamp_ns);
    let mut cg = u64_to_le_bytes(ev.cgroup_id);
    let mut si = u32_to_le_bytes(ev.src_ip);
    let mut di = u32_to_le_bytes(ev.dst_ip);
    let mut sp = u16_to_le_bytes(ev.src_port);
    let mut dp = u16_to_le_bytes(ev.dst_port);
    let mut pl = u16_to_le_bytes(ev.packet_len);
    r.append(&mut ts);
    r.append(&mut cg);
    r.append(&mut si);
    r.append(&mut di);
    r.append(&mut sp);
    r.append(&mut dp);
    r.push(ev.protocol);
    r.push(ev.direction);
    r.append(&mut pl);
    proof {
        assert(r@ =~= event_bytes(*ev));
    }
    r
}

/// Decode a 32-byte wire image back into an event record. Anything that is
/// not exactly 32 bytes long is malformed and yields `None`.
pub fn decode_event(b: &[u8]) -> (r: Option<NetworkFlowEvent>)
    ensures
        b@.len() != EVENT_SIZE ==> r is None,
        b@.len() == EVENT_SIZE ==> r == Some(record_of_bytes(b@)),
        b@.len() == EVENT_SIZE ==> (r matches Some(ev) && event_bytes(ev) == b@),
{
    if b.len() != EVENT_SIZE {
        return None;
    }
    proof {
        lemma_auto_spec_u64_to_from_le_bytes();
        lemma_auto_spec_u32_to_from_le_bytes();
        lemma_auto_spec_u16_to_from_le_bytes();
    }
    let ev = NetworkFlowEvent {
        timestamp_ns: u64_from_le_bytes(slice_subrange(b, 0, 8)),
        cgroup_id: u64_from_le_bytes(slice_subrange(b, 8, 16)),
        src_ip: u32_from_le_bytes(slice_subrange(b, 16, 20)),
        dst_ip: u32_from_le_bytes(slice_subrange(b, 20, 24)),
        src_port: u16_from_le_bytes(slice_subrange(b, 24, 26)),
        dst_port: u16_from_le_bytes(slice_subrange(b, 26, 28)),
        protocol: b[28],
        direction: b[29],
        packet_len: u16_from_le_bytes(slice_subrange(b, 30, 32)),
    };
    proof {
        assert(event_bytes(ev) =~= b@);
    }
    Some(ev)
}

/// Law: decoding an encoded record returns the record unchanged.
pub proof fn lemma_event_codec_round_trip(ev: NetworkFlowEvent, b: Seq<u8>)
    requires
        b == event_bytes(ev),
    ensures
        forall|ev2: NetworkFlowEvent| event_bytes(ev2) == b ==> ev2 == ev,
{
    lemma_auto_spec_u64_to_from_le_bytes();
    lemma_auto_spec_u32_to_from_le_bytes();
    lemma_auto_spec_u16_to_from_le_bytes();
    assert forall|ev2: NetworkFlowEvent| event_bytes(ev2) == b implies ev2 == ev by {
        lemma_event_bytes_fields(ev);
        lemma_event_bytes_fields(ev2);
    }
}

/// Each field of a record is recoverable from its wire image at its offset.
proof fn lemma_event_bytes_fields(ev: NetworkFlowEvent)
    ensures
        event_bytes(ev).len() == EVENT_SIZE,
        event_bytes(ev).subrange(0, 8) == spec_u64_to_le_bytes(ev.timestamp_ns),
        event_bytes(ev).subrange(8, 16) == spec_u64_to_le_bytes(ev.cgroup_id),
        event_bytes(ev).subrange(16, 20) == spec_u32_to_le_bytes(ev.src_ip),
        event_bytes(ev).subrange(20, 24) == spec_u32_to_le_bytes(ev.dst_ip),
        event_bytes(ev).subrange(24, 26) == spec_u16_to_le_bytes(ev.src_port),
        event_bytes(ev).subrange(26, 28) == spec_u16_to_le_bytes(ev.dst_port),
        event_bytes(ev)[28] == ev.protocol,
        event_bytes(ev)[29] == ev.direction,
        event_bytes(ev).subrange(30, 32) == spec_u16_to_le_bytes(ev.packet_len),
{
    lemma_auto_spec_u64_to_from_le_bytes();
    lemma_auto_spec_u32_to_from_le_bytes();
    lemma_auto_spec_u16_to_from_le_bytes();
    assert(event_bytes(ev).subrange(0, 8) =~= spec_u64_to_le_bytes(ev.timestamp_ns));
    assert(event_bytes(ev).subrange(8, 16) =~= spec_u64_to_le_bytes(ev.cgroup_id));
    assert(event_bytes(ev).subrange(16, 20) =~= spec_u32_to_le_bytes(ev.src_ip));
    assert(event_bytes(ev).subrange(20, 24) =~= spec_u32_to_le_bytes(ev.dst_ip));
    assert(event_bytes(ev).subrange(24, 26) =~= spec_u16_to_le_bytes(ev.src_port));
    assert(event_bytes(ev).subrange(26, 28) =~= spec_u16_to_le_bytes(ev.dst_port));
    assert(event_bytes(ev).subrange(30, 32) =~= spec_u16_to_le_bytes(ev.packet_len));
}

} // verus!
