//! RADIUS attribute type numbers (RFC 2865).
use vstd::prelude::*;

verus! {

pub const USER_NAME: u8 = 1;

pub const USER_PASSWORD: u8 = 2;

pub const REPLY_MESSAGE: u8 = 18;

/// The MAC address of the calling station.
pub const CALLING_STATION_ID: u8 = 31;

pub const SESSION_TIMEOUT: u8 = 27;

pub const IDLE_TIMEOUT: u8 = 28;

pub const SERVICE_TYPE: u8 = 6;

pub const FILTER_ID: u8 = 11;

} // verus!
