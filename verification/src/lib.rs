//! Core logic of a remote command-execution daemon.
//!
//! A client opens one session, optionally uploads named binary payloads,
//! then issues exactly one command; the daemon spawns the command and
//! bridges its standard I/O onto the session's message streams. This
//! crate holds the session protocol state machine and the multiplexing
//! rules: message classification, upload append semantics, session-id
//! allocation, argument resolution, line chunking of process output,
//! exit-status mapping, and the single-terminal-message discipline.
//! Transport, filesystem and process plumbing live outside the crate
//! and hand plain values in and out.

pub mod bytes;
pub mod chunk;
pub mod protocol;
pub mod resolve;
pub mod service;
pub mod session;
pub mod uploads;
