//! Commands of the drive device.

use vstd::prelude::*;

verus! {

/// Sets the raw left and right motor values.
pub const SET_RAW_MOTORS: u8 = 0x01;
/// Resets the yaw angle.
pub const RESET_YAW: u8 = 0x06;
/// Drives with a heading and a speed.
pub const DRIVE_WITH_HEADING: u8 = 0x07;
/// Stops both motors.
pub const STOP: u8 = 0x08;

} // verus!
