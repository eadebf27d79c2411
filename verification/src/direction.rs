//! Traffic direction constants shared by the classifier and the aggregator.

use vstd::prelude::*;

verus! {

/// Packet entered the host through the monitored interface.
pub const INGRESS: u8 = 0;

/// Packet left the host through the monitored interface.
pub const EGRESS: u8 = 1;

} // verus!
