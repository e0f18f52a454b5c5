//! Device ids of the robot's subsystems.

use vstd::prelude::*;

verus! {

/// Wake, sleep and battery.
pub const POWER: u8 = 0x13;
/// LEDs, buttons, infrared.
pub const IO: u8 = 0x1A;
/// Motors, speed, heading.
pub const DRIVE: u8 = 0x16;
/// IMU, colour sensor, encoders.
pub const SENSOR: u8 = 0x18;
/// Firmware and hardware information.
pub const SYSTEM_INFO: u8 = 0x11;

} // verus!
