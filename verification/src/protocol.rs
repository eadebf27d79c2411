//! IANA protocol numbers recognised by the classifier.

use vstd::prelude::*;

verus! {

/// Internet Control Message Protocol.
pub const ICMP: u8 = 1;

/// Transmission Control Protocol.
pub const TCP: u8 = 6;

/// User Datagram Protocol.
pub const UDP: u8 = 17;

} // verus!
