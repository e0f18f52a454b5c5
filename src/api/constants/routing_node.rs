//! Routing nodes of the robot's internal mesh, for commands sent from the UART port.

use vstd::prelude::*;

verus! {

/// The primary processor, target of most commands.
pub const PRIMARY_PROCESSOR: u8 = 0x01;
/// The UART expansion port, source of commands sent from outside.
pub const UART_PORT: u8 = 0x02;

} // verus!
