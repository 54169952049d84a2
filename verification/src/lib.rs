//! Verified core of an MPRIS-to-file/socket bridge daemon.
//!
//! The library elects a single "active" media player from the set of players
//! known on the session bus, renders the canonical published record (snapshot
//! and event-log line), processes the metadata stream of the followed player,
//! routes IPC control commands, and computes every other decision the daemon
//! and its companion tool make. All I/O (bus, processes, sockets, files,
//! HTTP) lives outside the library and hands plain values in and out.

pub mod art;
pub mod caps;
pub mod cli;
pub mod config;
pub mod election;
pub mod follower;
pub mod ipc;
pub mod json;
pub mod listener;
pub mod num;
pub mod paths;
pub mod registry;
pub mod state;
pub mod text;
pub mod timefmt;
