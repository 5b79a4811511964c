//! A bridge that supervises one long-lived worker process and exchanges
//! line-delimited structured messages with it over its standard streams.
//!
//! The crate holds the decision logic of the bridge: the startup handshake
//! gate, the command-line codec, the classification of worker output lines,
//! and the routing of classified events to subscribers.  The surrounding
//! process plumbing (spawning the worker, reading and writing its pipes)
//! lives outside the library and hands plain values in and out.

pub mod bridge;
pub mod codec;
pub mod dispatch;
pub mod errors;
pub mod events;
pub mod handshake;
