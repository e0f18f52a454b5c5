//! Commands of the IO device.

use vstd::prelude::*;

verus! {

/// Sets the LEDs of a mask to one colour.
pub const SET_ALL_LEDS: u8 = 0x1A;
/// Sets LED colours one by one.
pub const SET_LEDS: u8 = 0x1B;
/// Reads the RGB LED values.
pub const GET_RGB_LED: u8 = 0x1C;

} // verus!
