//! Protocol ids: routing nodes, devices, commands, LED masks, drive modes
//! and response error codes.

pub mod device;
pub mod drive_command;
pub mod drive_mode;
pub mod error_code;
pub mod io_command;
pub mod led_bitmask;
pub mod power_command;
pub mod routing_node;
pub mod sensor_command;
pub mod system_info_command;
