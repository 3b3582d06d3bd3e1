//! A broadcast relay for short text messages: the wire codec, the registry of
//! live connections with its fan-out, and the per-connection session rules.
//!
//! Nothing here touches a socket. A caller feeds in frames and operations and
//! gets back the payloads to write and the handles to write them to.

pub mod clock;
pub mod codec;
pub mod message;
pub mod registry;
pub mod session;
pub mod text;
