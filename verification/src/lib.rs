//! A decoupling layer between a producer of byte payloads and a best-effort
//! datagram transport.
//!
//! The producer holds a [`writer::StreamingWriter`], which enqueues payloads on a
//! channel and never waits for the network. A background worker receives them
//! and asks [`worker::Worker`] what to do with each one. Where the payloads go is
//! settled once, at start-up, by [`resolver::find_dest`].
//!
//! Waiting on the channel, sending datagrams and asking the system resolver for
//! the addresses of a host name are left to the caller: the library decides, the
//! caller performs.

pub mod address;
pub mod endpoint;
pub mod message;
pub mod resolver;
pub mod worker;
pub mod writer;
