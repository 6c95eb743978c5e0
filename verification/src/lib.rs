//! Bidirectional terminal I/O engine: the decisions of a process driver that
//! bridges a pseudo-terminal to in-process channels under backpressure, and of
//! a gateway that republishes the session's events to remote viewers.

pub mod chunking;
pub mod cli;
pub mod api;
pub mod nbio;
pub mod piped;
pub mod text;
pub mod pty;
pub mod session;

pub use cli::Size;
