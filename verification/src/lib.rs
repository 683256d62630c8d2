//! gRPC tunnelled over a web socket: the verified core of the transport.
//!
//! A connector opens a web socket; the connection that it yields carries the
//! bytes of each write in one binary message and hands the reader the
//! payloads of the data messages that arrive, in order, up to a close
//! message.
pub mod channel;
pub mod connection;
mod foreign;
pub mod frames;
pub mod transport;

pub use channel::{Channel, Endpoint};
