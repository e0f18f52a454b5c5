//! Command construction, and the ids of the commands the connection sends.

pub mod builder;

use vstd::prelude::*;

verus! {

/// The IO subsystem (LEDs).
pub const DEVICE_IO: u8 = 0x1A;
/// The power subsystem.
pub const DEVICE_POWER: u8 = 0x13;

/// Sets every LED to one colour.
pub const CMD_SET_ALL_LEDS: u8 = 0x1C;
/// Wakes the robot.
pub const CMD_WAKE: u8 = 0x0D;
/// Puts the robot to sleep.
pub const CMD_SLEEP: u8 = 0x01;
/// Reads the battery charge in percent.
pub const CMD_GET_BATTERY_PERCENTAGE: u8 = 0x10;
/// Reads the battery voltage state (unknown, ok, low, critical).
pub const CMD_GET_BATTERY_VOLTAGE_STATE: u8 = 0x17;

} // verus!
