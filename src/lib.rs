//! Driver layer for a small wheeled robot reached over a byte-oriented
//! serial link: checksummed packets, SLIP-style framing, a resynchronizing
//! stream parser and the bookkeeping that pairs responses with requests.

pub mod api;
pub mod commands;
pub mod connection;
pub mod error;
pub mod protocol;
pub mod response;
pub mod transport;
