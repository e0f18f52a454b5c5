//! Error codes at the head of a response payload.

use vstd::prelude::*;

verus! {

/// The command succeeded.
pub const SUCCESS: u8 = 0x00;
/// Unknown device id.
pub const BAD_DEVICE_ID: u8 = 0x01;
/// Unknown command id.
pub const BAD_COMMAND_ID: u8 = 0x02;
/// The command is not implemented.
pub const NOT_YET_IMPLEMENTED: u8 = 0x03;
/// The command is restricted.
pub const RESTRICTED: u8 = 0x04;
/// The payload length is wrong.
pub const BAD_DATA_LENGTH: u8 = 0x05;
/// The command failed.
pub const FAILED: u8 = 0x06;
/// A parameter value is out of range.
pub const BAD_PARAMETER_VALUE: u8 = 0x07;
/// The device is busy; try again later.
pub const BUSY: u8 = 0x08;

} // verus!
