//! Plain data types shared across the capture pipeline.

use vstd::prelude::*;

verus! {

/// Direction of TCP flow for captured bytes.
#[derive(Debug, Clone, Copy, PartialEq, Eq, Structural)]
pub enum Direction {
    /// Bytes flowing from the external client to the container/service.
    ClientToContainer,
    /// Bytes flowing from the container/service back to the external client.
    ContainerToClient,
}

/// Logical stdio stream identifiers used when parsing activity logs.
#[derive(Debug, Clone, Copy, PartialEq, Eq, Structural)]
pub enum StdioStream {
    /// Data written by the client (e.g. typed commands), i.e. STDIN.
    Stdin,
    /// Data produced by the service on standard output.
    Stdout,
    /// Data produced by the service on standard error.
    Stderr,
}

/// Current status of a session.
#[derive(Debug, Clone, Copy, PartialEq, Eq, Structural)]
pub enum SessionStatus {
    /// The session is awaiting activation.
    Pending,
    /// The session is currently active.
    Active,
    /// The session has finished successfully.
    Completed,
    /// The session encountered an error.
    Error,
}

} // verus!
