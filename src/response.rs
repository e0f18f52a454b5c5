//! A response as the command layer sees it.

use vstd::prelude::*;

use crate::error::RvrError;
use crate::protocol::packet::Packet;

verus! {

/// A response: its sequence number, its error code and its data.
#[derive(Debug, Clone)]
pub struct Response {
    pub sequence_number: u8,
    pub error_code: u8,
    pub payload: Vec<u8>,
}

impl Response {
    /// Takes a response packet apart; fails with `NotAResponse` when the
    /// packet lacks the response flag. The error code is left at 0.
    pub fn from_packet(packet: Packet) -> (r: Result<Self, RvrError>)
        ensures
            !packet.flags.is_response ==> r == Err::<Response, RvrError>(RvrError::NotAResponse),
            packet.flags.is_response ==> r is Ok && r->Ok_0.sequence_number == packet.sequence_number
                && r->Ok_0.error_code == 0 && r->Ok_0.payload@ == packet.payload@,
    {
        if !packet.flags.is_response {
            return Err(RvrError::NotAResponse);
        }
        Ok(Response { sequence_number: packet.sequence_number, error_code: 0, payload: packet.payload })
    }

    /// Whether the error code reports success.
    pub fn is_success(&self) -> (r: bool)
        ensures
            r == (self.error_code == 0),
    {
        self.error_code == 0
    }
}

} // verus!
