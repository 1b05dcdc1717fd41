//! Core of a remote-control panel for the mpv media player.
//!
//! The crate models the pieces that carry the protocol logic: reusable
//! command templates made of string tokens, the newline-delimited JSON
//! wire format spoken over a named pipe, the JSON document in which
//! command templates are persisted, and the per-connection session state
//! that absorbs the outcome of each non-blocking read or write.  All I/O
//! itself (pipes, files, the UI event loop) lives outside the crate and
//! hands plain values in and out.

pub mod addui;
pub mod codec;
pub mod command;
pub mod json;
pub mod parse;
pub mod registry;
pub mod roundtrip;
pub mod session;
pub mod text;
pub mod utf16;
