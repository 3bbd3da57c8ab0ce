//! Client-side protocol layer for a JSON-over-TLS trading API.
//!
//! The crate covers the pieces that need precision: the wire codec for the
//! typed command and streaming messages, the blank-line framing of the
//! streaming channel, the one-in-flight command channel discipline, and the
//! bounded login retry. Socket and TLS plumbing live outside the library and
//! hand plain bytes in and out.

pub mod decimal;
pub mod errors;
pub mod channel;
pub mod frame;
pub mod json;
pub mod session;
pub mod time;
pub mod xapi_definitions;

pub use time::timestamp_to_datetime;

