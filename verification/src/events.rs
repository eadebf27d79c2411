//! Decoded observability events and the processor that buffers them.

use vstd::prelude::*;
use vstd::string::StringExecFns;
use crate::decimal::{dec_rep, u64_to_dec};

verus! {

/// A transport protocol as an event reports it.
#[derive(Debug, Clone, Copy, PartialEq, Eq, Structural)]
pub enum Protocol {
    Tcp,
    Udp,
    Icmp,
    Other(u8),
}

impl Protocol {
    /// The protocol's display text.
    pub open spec fn name_spec(&self) -> Seq<char> {
        match *self {
            Protocol::Tcp => "TCP"@,
            Protocol::Udp => "UDP"@,
            Protocol::Icmp => "ICMP"@,
            Protocol::Other(p) => "Protocol("@ + dec_rep(p as nat) + ")"@,
        }
    }

    /// Render the protocol as text.
    pub fn name(&self) -> (r: String)
        ensures
            r@ == self.name_spec(),
    {
        match self {
            Protocol::Tcp => String::from_str("TCP"),
            Protocol::Udp => String::from_str("UDP"),
            Protocol::Icmp => String::from_str("ICMP"),
            Protocol::Other(p) => {
                let mut m = String::from_str("Protocol(");
                let d = u64_to_dec(*p as u64);
                m.append(d.as_str());
                m.append(")");
                m
            },
        }
    }
}

/// One network observation, addresses already formatted.
/// `timestamp_ns` is the capture instant in nanoseconds.
#[derive(Debug, Clone)]
pub struct NetworkEvent {
    pub timestamp_ns: u64,
    pub src_ip: String,
    pub dst_ip: String,
    pub src_port: u16,
    pub dst_port: u16,
    pub protocol: Protocol,
    pub bytes: u64,
}

/// One system-call observation.
#[derive(Debug, Clone)]
pub struct SyscallEvent {
    pub timestamp_ns: u64,
    pub pid: u32,
    pub syscall_id: u64,
    pub syscall_name: String,
}

/// What kind of accelerator activity a GPU event records.
#[derive(Debug, Clone, Copy, PartialEq, Eq, Structural)]
pub enum GpuEventType {
    Alloc,
    Free,
    KernelLaunch,
    MemoryCopy,
}

/// One accelerator observation.
#[derive(Debug, Clone, Copy, PartialEq, Eq, Structural)]
pub struct GpuEvent {
    pub timestamp_ns: u64,
    pub event_type: GpuEventType,
    pub size: u64,
    pub device_id: u32,
}

/// Any decoded observability event.
#[derive(Debug, Clone)]
pub enum Event {
    Network(NetworkEvent),
    Syscall(SyscallEvent),
    Gpu(GpuEvent),
}

/// The raw byte buffer type raw records arrive in.
#[verifier::external_type_specification]
#[verifier::external_body]
pub struct ExBytes(bytes::Bytes);

/// Buffers decoded events until they are flushed.
pub struct EventProcessor {
    buffer: Vec<Event>,
}

impl EventProcessor {
    /// The buffered events, oldest first.
    pub closed spec fn buffered(&self) -> Seq<Event> {
        self.buffer@
    }

    /// A processor with nothing buffered.
    pub fn new() -> (r: Self)
        ensures
            r.buffered() == Seq::<Event>::empty(),
    {
        EventProcessor { buffer: Vec::new() }
    }

    /// Decode one raw record. No record format is wired up yet, so
    /// nothing decodes and the buffer stays as it was.
    pub fn process_raw_event(&mut self, _data: bytes::Bytes) -> (r: Option<Event>)
        ensures
            r is None,
            final(self).buffered() == old(self).buffered(),
    {
        None
    }

    /// Hand the buffered events out and leave the buffer empty.
    pub fn flush(&mut self) -> (r: Vec<Event>)
        ensures
            r@ == old(self).buffered(),
            final(self).buffered() == Seq::<Event>::empty(),
    {
        let mut out: Vec<Event> = Vec::new();
        core::mem::swap(&mut self.buffer, &mut out);
        out
    }
}

} // verus!
