//! Wire protocol: checksum, byte framing, packet layout and stream parsing.

pub mod checksum;
pub mod framing;
pub mod packet;
pub mod parser;
