//! A bidirectional message bridge between a newline-delimited local text
//! channel and a frame-oriented remote transport.
//!
//! The crate verifies the logic of the bridge: how a remote endpoint is
//! resolved from plain inputs, how received frames are normalized to
//! newline-terminated lines, and the state machine that decides, for every
//! event the surrounding process observes, what is forwarded, what is
//! answered, and when the bridge shuts down.

pub mod bridge;
pub mod codec;
pub mod endpoint;
