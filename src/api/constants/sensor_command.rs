//! Commands of the sensor device.

use vstd::prelude::*;

verus! {

/// Enables or disables sensor streaming.
pub const SET_SENSOR_STREAMING: u8 = 0x39;
/// Starts sensor streaming.
pub const START_SENSOR_STREAMING: u8 = 0x3A;
/// Stops sensor streaming.
pub const STOP_SENSOR_STREAMING: u8 = 0x3B;
/// Clears the sensor streaming configuration.
pub const CLEAR_SENSOR_STREAMING: u8 = 0x3C;
/// Sets the sensor streaming interval.
pub const SET_STREAMING_INTERVAL: u8 = 0x46;

} // verus!
