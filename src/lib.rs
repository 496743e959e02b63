//! An in-memory mailbox reachable over a line-based text protocol.
//!
//! Clients publish text payloads into one shared FIFO queue and retrieve the
//! oldest one. The library holds the verified core: the command grammar, the
//! frame codec, the queue with its explicit degraded state, and the dispatch
//! of one decoded command to one queue operation.
use vstd::prelude::*;

pub mod codec;
pub mod command;
pub mod error;
pub mod laws;
pub mod service;
pub mod store;
