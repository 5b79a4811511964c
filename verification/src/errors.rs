//! The error vocabulary of the bridge.  Startup errors are fatal: the
//! bridge aborts initialization and the failure propagates to whoever is
//! constructing it.  Send errors surface synchronously to the caller.
//! Read-side failures are observable only as terminal events.

use vstd::prelude::*;

verus! {

/// The worker process could not be spawned: the executable is missing,
/// not runnable, or process creation was rejected.  The process layer
/// constructs it from the failure it observed; no background reading ever
/// starts after it.
#[derive(Debug)]
pub struct SpawnError {
    pub message: String,
}

/// The startup handshake failed.  Fatal: no command may be accepted and
/// no background reading may begin.
#[derive(Debug)]
pub enum HandshakeError {
    /// The worker's output ended before a first line arrived.
    StreamClosed,
    /// The first line was not the readiness token.
    UnexpectedLine { line: String },
}

/// A command was not sent.
#[derive(Debug)]
pub enum SendError {
    /// The handshake has not succeeded, so no command is accepted yet.
    NotReady,
    /// The worker's input stream is closed or broken, most commonly
    /// because the worker has already exited.  The writer constructs it
    /// from the failure it observed.
    Broken { message: String },
}

} // verus!
