//! Typed values and protocol ids for the command layer, and the decisions
//! the client makes around each exchange.

pub mod client;
pub mod constants;
pub mod types;
