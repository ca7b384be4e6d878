//! A cross-thread request/response bridge: callers stage requests for a
//! named, shared index in a per-connection mailbox slot, ring a one-byte
//! doorbell over a local socket, and poll for the staged response, so no
//! caller thread ever blocks on data I/O. Connections attach to shared,
//! reference-counted resource instances that are opened at most once and
//! closed exactly when the last attachment releases. Query results are
//! consumed through an incremental pull cursor that can be abandoned
//! early.
//!
//! The socket reads and writes, the threads and the index engine itself
//! live with the driver; this crate holds the protocol's state and every
//! decision of it.

use vstd::prelude::*;

pub mod conn;
pub mod dispatch;
pub mod handshake;
pub mod json;
pub mod mailbox;
pub mod msg;
pub mod registry;

verus! {

/// Identifier a caller chooses for its connection; the key under which
/// its single mailbox slot is stored.
pub type ConnectionId = u64;

/// The byte a caller sends to signal that a request is staged: ASCII '0'.
pub const READY_BYTE: u8 = 48;

/// The byte a worker sends back to signal that a response is staged: ASCII '1'.
pub const ACK_BYTE: u8 = 49;

/// The byte that terminates the handshake line carrying the connection id: ASCII ';'.
pub const HANDSHAKE_TERMINATOR: u8 = 59;

} // verus!
