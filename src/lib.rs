//! A client for a line-delimited JSON command/reply protocol spoken by
//! networked lights: validated parameter types, the wire codec, and the
//! request/reply correlation that a session runs over one connection.

pub mod values;
pub mod json;
pub mod codec;
pub mod session;
