//! Commands of the system information device.

use vstd::prelude::*;

verus! {

/// Reads the firmware version.
pub const GET_FIRMWARE_VERSION: u8 = 0x02;
/// Reads the hardware version.
pub const GET_HARDWARE_VERSION: u8 = 0x03;
/// Reads the MAC address.
pub const GET_MAC_ADDRESS: u8 = 0x06;

} // verus!
