//! What the client decides around each exchange: the command packets it
//! sends from the UART port, and what each response means.

use vstd::prelude::*;

use crate::api::constants::{device, drive_command, drive_mode, error_code, io_command, routing_node};
use crate::api::types::{BatteryState, Color};
use crate::error::RvrError;
use crate::protocol::packet::{Packet, PacketFlags, PacketView};

verus! {

/// A command sent from the UART port to the primary processor: it asks for
/// a response, carries both routing ids, and has sequence number 0 until
/// the dispatcher numbers it.
pub open spec fn routed_command(device_id: u8, command_id: u8, payload: Seq<u8>) -> PacketView {
    PacketView {
        flags: PacketFlags {
            is_response: false,
            requests_response: true,
            requests_only_error_response: false,
            is_activity: false,
            has_target_id: true,
            has_source_id: true,
            reserved: 0,
        },
        target_id: Some(routing_node::PRIMARY_PROCESSOR),
        source_id: Some(routing_node::UART_PORT),
        device_id,
        command_id,
        sequence_number: 0,
        payload,
    }
}

/// Builds the routed command for `device_id` and `command_id`.
pub fn build_command(device_id: u8, command_id: u8, payload: Vec<u8>) -> (r: Packet)
    ensures
        r@ == routed_command(device_id, command_id, payload@),
{
    Packet {
        flags: PacketFlags {
            is_response: false,
            requests_response: true,
            requests_only_error_response: false,
            is_activity: false,
            has_target_id: true,
            has_source_id: true,
            reserved: 0,
        },
        target_id: Some(routing_node::PRIMARY_PROCESSOR),
        source_id: Some(routing_node::UART_PORT),
        device_id,
        command_id,
        sequence_number: 0,
        payload,
    }
}

/// What a response payload reports: success when it is empty or starts
/// with the success code; `CommandFailed` for the failure code and for
/// codes the protocol does not define; `InvalidResponse` for the others.
pub open spec fn response_status(payload: Seq<u8>) -> Result<(), RvrError> {
    if payload.len() == 0 || payload[0] == error_code::SUCCESS {
        Ok(())
    } else if payload[0] == error_code::FAILED || payload[0] > error_code::BUSY {
        Err(RvrError::CommandFailed(payload[0]))
    } else {
        Err(RvrError::InvalidResponse(payload[0]))
    }
}

/// Reads the error code at the head of a response payload.
pub fn check_response(response: &Packet) -> (r: Result<(), RvrError>)
    ensures
        r == response_status(response.payload@),
{
    if response.payload.len() == 0 {
        return Ok(());
    }
    let code = response.payload[0];
    if code == error_code::SUCCESS {
        Ok(())
    } else if code == error_code::BAD_DEVICE_ID || code == error_code::BAD_COMMAND_ID || code
        == error_code::NOT_YET_IMPLEMENTED || code == error_code::RESTRICTED || code
        == error_code::BAD_DATA_LENGTH || code == error_code::BAD_PARAMETER_VALUE || code
        == error_code::BUSY {
        Err(RvrError::InvalidResponse(code))
    } else {
        Err(RvrError::CommandFailed(code))
    }
}

/// The battery state a response reports: its status first, then the first
/// payload byte as the percentage; `MissingPayload` when there is none.
pub fn battery_state(response: &Packet) -> (r: Result<BatteryState, RvrError>)
    ensures
        match response_status(response.payload@) {
            Err(e) => r == Err::<BatteryState, RvrError>(e),
            Ok(_) => if response.payload@.len() == 0 {
                r == Err::<BatteryState, RvrError>(RvrError::MissingPayload)
            } else {
                r == Ok::<BatteryState, RvrError>(BatteryState { percentage: response.payload@[0] })
            },
        },
{
    match check_response(response) {
        Err(e) => Err(e),
        Ok(()) => {
            if response.payload.len() == 0 {
                Err(RvrError::MissingPayload)
            } else {
                Ok(BatteryState { percentage: response.payload[0] })
            }
        },
    }
}

/// The command that sets the LEDs selected by `led_mask` to `color`.
pub fn led_command(led_mask: u8, color: Color) -> (r: Packet)
    ensures
        r@ == routed_command(device::IO, io_command::SET_ALL_LEDS, seq![led_mask, color.r, color.g, color.b]),
{
    let payload = vec![led_mask, color.r, color.g, color.b];
    assert(payload@ =~= seq![led_mask, color.r, color.g, color.b]);
    build_command(device::IO, io_command::SET_ALL_LEDS, payload)
}

/// The command that stops both motors, braking or coasting.
pub fn stop_command(brake: bool) -> (r: Packet)
    ensures
        r@ == routed_command(
            device::DRIVE,
            drive_command::STOP,
            seq![if brake { drive_mode::BRAKE } else { drive_mode::COAST }],
        ),
{
    let mode = if brake { drive_mode::BRAKE } else { drive_mode::COAST };
    let payload = vec![mode];
    assert(payload@ =~= seq![mode]);
    build_command(device::DRIVE, drive_command::STOP, payload)
}

} // verus!
