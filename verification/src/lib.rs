//! Safe, verified model of a reference-counted handle over a native
//! asynchronous IPC connection: message codec, version gate, connection
//! lifecycle, and the event bridge that forwards decoded events to a
//! delegate.

pub mod codec;
pub mod connection;
pub mod envelope;
pub mod error;
pub mod options;
pub mod utils;
