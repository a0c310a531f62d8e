//! A verified core for a terminal-multiplexer "sessionizer": a client and a
//! daemon coordinate over a local socket, exchanging JSON-encoded event
//! envelopes, while a per-user directory of zero-byte marker files records
//! the set of known server names.
//!
//! This crate holds the logic: the wire codec, the daemon's request
//! dispatcher, the registry semantics, the multiplexer command planning and
//! the socket-path lifecycle.  All input/output (sockets, filesystem, child
//! processes) is performed by a thin unverified shell around it, which hands
//! the library plain values and carries out the actions it decides on.

pub mod cli;
pub mod codec;
pub mod daemon;
pub mod dispatch;
pub mod events;
pub mod ping;
pub mod registry;
pub mod server;
pub mod tmux;
