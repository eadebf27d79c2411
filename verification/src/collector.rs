//! Counter totals folded from decoded events.

use vstd::prelude::*;
use crate::aggregator::{sat_add, sat_add_exec};
use crate::events::{Event, GpuEventType};

verus! {

/// Running totals over everything observed. Accumulation stops at the
/// top of the 64-bit range; freed accelerator memory never drives the
/// allocated gauge below zero.
#[derive(Debug, Clone, Copy, PartialEq, Eq, Structural)]
pub struct Metrics {
    pub network_packets_total: u64,
    pub network_bytes_total: u64,
    pub syscalls_total: u64,
    pub gpu_allocations_total: u64,
    pub gpu_memory_allocated: u64,
}

impl Default for Metrics {
    /// All totals start at zero.
    fn default() -> (r: Self)
        ensures
            r == Metrics::zero(),
    {
        Metrics {
            network_packets_total: 0,
            network_bytes_total: 0,
            syscalls_total: 0,
            gpu_allocations_total: 0,
            gpu_memory_allocated: 0,
        }
    }
}

impl Metrics {
    /// The totals before anything was observed.
    pub open spec fn zero() -> Metrics {
        Metrics {
            network_packets_total: 0,
            network_bytes_total: 0,
            syscalls_total: 0,
            gpu_allocations_total: 0,
            gpu_memory_allocated: 0,
        }
    }

    /// The totals after one more event.
    pub open spec fn after_event(self, event: &Event) -> Metrics {
        match *event {
            Event::Network(ref net) => Metrics {
                network_packets_total: sat_add(self.network_packets_total, 1),
                network_bytes_total: sat_add(self.network_bytes_total, net.bytes),
                ..self
            },
            Event::Syscall(_) => Metrics { syscalls_total: sat_add(self.syscalls_total, 1), ..self },
            Event::Gpu(ref gpu) => match gpu.event_type {
                GpuEventType::Alloc => Metrics {
                    gpu_allocations_total: sat_add(self.gpu_allocations_total, 1),
                    gpu_memory_allocated: sat_add(self.gpu_memory_allocated, gpu.size),
                    ..self
                },
                GpuEventType::Free => if self.gpu_memory_allocated >= gpu.size {
                    Metrics {
                        gpu_memory_allocated: (self.gpu_memory_allocated - gpu.size) as u64,
                        ..self
                    }
                } else {
                    self
                },
                GpuEventType::KernelLaunch | GpuEventType::MemoryCopy => self,
            },
        }
    }

    /// Fold one event into the totals.
    pub fn apply_event(&mut self, event: &Event)
        ensures
            *final(self) == old(self).after_event(event),
    {
        match event {
            Event::Network(net) => {
                self.network_packets_total = sat_add_exec(self.network_packets_total, 1);
                self.network_bytes_total = sat_add_exec(self.network_bytes_total, net.bytes);
            },
            Event::Syscall(_) => {
                self.syscalls_total = sat_add_exec(self.syscalls_total, 1);
            },
            Event::Gpu(gpu) => {
                match gpu.event_type {
                    GpuEventType::Alloc => {
                        self.gpu_allocations_total = sat_add_exec(self.gpu_allocations_total, 1);
                        self.gpu_memory_allocated = sat_add_exec(
                            self.gpu_memory_allocated,
                            gpu.size,
                        );
                    },
                    GpuEventType::Free => {
                        if self.gpu_memory_allocated >= gpu.size {
                            self.gpu_memory_allocated = self.gpu_memory_allocated - gpu.size;
                        }
                    },
                    GpuEventType::KernelLaunch => {},
                    GpuEventType::MemoryCopy => {},
                }
            },
        }
    }
}

} // verus!
