//! Request/response bookkeeping for the dispatcher that owns the serial link.

pub mod dispatch;
