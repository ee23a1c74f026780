//! MikroTik vendor-specific attribute numbers.
use vstd::prelude::*;

verus! {

pub const VENDOR_ID: u32 = 14988;

/// Upload rate (tx).
pub const RATE_LIMIT_TX: u8 = 4;

/// Download rate (rx).
pub const RATE_LIMIT_RX: u8 = 5;

/// Queue mark.
pub const MARK: u8 = 9;

/// Bandwidth cap.
pub const CAP: u8 = 23;

} // verus!
