//! What the direct, one-exchange-at-a-time connection computes: its
//! settings, the all-LEDs payload, and the meaning of a received frame.

use vstd::prelude::*;

use crate::error::RvrError;
use crate::protocol::framing::{decode_bytes, decode_spec};
use crate::protocol::packet::{parse, Packet};
use crate::response::Response;

verus! {

/// Serial settings of a connection.
#[derive(Debug, Clone)]
pub struct RvrConfig {
    pub baud_rate: u32,
    pub timeout_ms: u64,
}

impl Default for RvrConfig {
    /// 115200 baud, the robot's UART rate, and a one-second timeout.
    fn default() -> (r: Self)
        ensures
            r.baud_rate == 115_200 && r.timeout_ms == 1000,
    {
        RvrConfig { baud_rate: 115_200, timeout_ms: 1000 }
    }
}

/// Number of RGB LEDs the all-LEDs command addresses.
pub const LED_COUNT: usize = 10;

/// `n` copies of the triple `red, green, blue`.
pub open spec fn rgb_repeated(n: nat, red: u8, green: u8, blue: u8) -> Seq<u8>
    decreases n,
{
    if n == 0 {
        Seq::empty()
    } else {
        rgb_repeated((n - 1) as nat, red, green, blue) + seq![red, green, blue]
    }
}

/// The payload that sets every LED to one colour: a four-byte mask that
/// selects all LEDs, then one RGB triple per LED.
pub fn all_leds_payload(red: u8, green: u8, blue: u8) -> (r: Vec<u8>)
    ensures
        r@ == seq![0x3Fu8, 0xFFu8, 0xFFu8, 0xFFu8] + rgb_repeated(LED_COUNT as nat, red, green, blue),
{
    let mut payload = vec![0x3Fu8, 0xFFu8, 0xFFu8, 0xFFu8];
    let mut i: usize = 0;
    assert(payload@ =~= seq![0x3Fu8, 0xFFu8, 0xFFu8, 0xFFu8] + rgb_repeated(0, red, green, blue));
    while i < LED_COUNT
        invariant
            i <= LED_COUNT,
            payload@ == seq![0x3Fu8, 0xFFu8, 0xFFu8, 0xFFu8] + rgb_repeated(i as nat, red, green, blue),
        decreases LED_COUNT - i,
    {
        payload.push(red);
        payload.push(green);
        payload.push(blue);
        assert(payload@ =~= seq![0x3Fu8, 0xFFu8, 0xFFu8, 0xFFu8] + rgb_repeated((i + 1) as nat, red, green, blue));
        i = i + 1;
    }
    payload
}

/// What the bytes between a start and an end marker mean: they are
/// unescaped, parsed as a packet, and read as a response.
pub fn response_from_frame(body: &[u8]) -> (r: Result<Response, RvrError>)
    ensures
        match decode_spec(body@) {
            None => r == Err::<Response, RvrError>(RvrError::IncompleteEscape),
            Some(d) => match parse(d) {
                Err(e) => r == Err::<Response, RvrError>(e),
                Ok(p) => if p.flags.is_response {
                    r is Ok && r->Ok_0.sequence_number == p.sequence_number && r->Ok_0.error_code == 0
                        && r->Ok_0.payload@ == p.payload
                } else {
                    r == Err::<Response, RvrError>(RvrError::NotAResponse)
                },
            },
        },
{
    let decoded = match decode_bytes(body) {
        Ok(d) => d,
        Err(e) => return Err(e),
    };
    let packet = match Packet::from_bytes(decoded.as_slice()) {
        Ok(p) => p,
        Err(e) => return Err(e),
    };
    Response::from_packet(packet)
}

} // verus!
