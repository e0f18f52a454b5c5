//! How the motors stop.

use vstd::prelude::*;

verus! {

/// Let the motors coast.
pub const COAST: u8 = 0x00;
/// Brake the motors.
pub const BRAKE: u8 = 0x01;

} // verus!
