//! Commands of the power device.

use vstd::prelude::*;

verus! {

/// Wakes the robot from sleep.
pub const WAKE: u8 = 0x0D;
/// Puts the robot to sleep.
pub const SLEEP: u8 = 0x01;
/// Reads the battery charge in percent.
pub const GET_BATTERY_PERCENTAGE: u8 = 0x10;
/// Reads the battery voltage state.
pub const GET_BATTERY_VOLTAGE_STATE: u8 = 0x17;

} // verus!
