//! Request/response correlation for JSON-RPC over a message channel, with the
//! address planning that precedes the connection and the call sequences that
//! run on top of it.

pub mod batch;
pub mod call;
pub mod correlate;
pub mod driver;
pub mod endpoint;
pub mod error;
pub mod json;
pub mod number;
