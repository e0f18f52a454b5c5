//! Bits selecting LEDs.

use vstd::prelude::*;

verus! {

/// Right headlight.
pub const RIGHT_HEADLIGHT: u8 = 0x01;
/// Left headlight.
pub const LEFT_HEADLIGHT: u8 = 0x02;
/// Left status LED.
pub const LEFT_STATUS: u8 = 0x04;
/// Right status LED.
pub const RIGHT_STATUS: u8 = 0x08;
/// Front battery door LEDs.
pub const BATTERY_DOOR_FRONT: u8 = 0x10;
/// Rear battery door LEDs.
pub const BATTERY_DOOR_REAR: u8 = 0x20;
/// Every LED.
pub const ALL: u8 = 0x3F;

} // verus!
