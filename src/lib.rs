//! Client-side protocol logic for the SR-201 network relay board: channel
//! selector parsing, the relay-control request and status encoding, and the
//! configuration service's key table, envelope and replies.
//!
//! The functions here build the bytes of each request and decode the bytes
//! of each response; opening connections and moving the bytes is left to the
//! caller.

pub mod config;
pub mod error;
pub mod range;
pub mod relay;
pub mod wire;

pub use error::make_generic as make_generic_error;
