//! Step-by-step construction of a command packet.

use vstd::prelude::*;

use crate::protocol::packet::{command_view, Packet};

verus! {

/// Collects a command's device, command id and payload before numbering it.
pub struct CommandBuilder {
    device_id: u8,
    command_id: u8,
    payload: Vec<u8>,
}

impl View for CommandBuilder {
    /// Device id, command id and payload.
    type V = (u8, u8, Seq<u8>);

    closed spec fn view(&self) -> (u8, u8, Seq<u8>) {
        (self.device_id, self.command_id, self.payload@)
    }
}

impl CommandBuilder {
    /// A command for `device_id` and `command_id` with an empty payload.
    pub fn new(device_id: u8, command_id: u8) -> (r: Self)
        ensures
            r@ == (device_id, command_id, Seq::<u8>::empty()),
    {
        CommandBuilder { device_id, command_id, payload: Vec::new() }
    }

    /// Replaces the payload.
    pub fn with_payload(self, payload: Vec<u8>) -> (r: Self)
        ensures
            r@ == (self@.0, self@.1, payload@),
    {
        let mut b = self;
        b.payload = payload;
        b
    }

    /// The command packet, numbered `sequence_number`.
    pub fn build(self, sequence_number: u8) -> (r: Packet)
        ensures
            r@ == command_view(self@.0, self@.1, sequence_number, self@.2),
    {
        Packet::new_command(self.device_id, self.command_id, sequence_number, self.payload)
    }
}

} // verus!
