//! Host-managed Wasm linear memories for sandboxed Python sessions: what a tracker of such
//! memories records, how a memory is laid out, made, grown and dropped, how live memories are
//! captured and restored in place, and what a session decides around them.
//!
//! The library holds the decisions. Mapping, protecting and copying host memory, and running
//! Python, are the host's work: a function says what the host is to do, and another takes what
//! came of it.
//!
//! - [`align`], [`layout`]: page arithmetic and the sizes of a new memory
//! - [`tracker`]: live regions and aggregate counters
//! - [`memory`], [`growth`]: the life of a memory
//! - [`snapshot`]: capturing and restoring live regions
//! - [`setup`], [`session`], [`dict`]: Python sessions
//! - [`laws`]: what holds across operations

pub mod align;
pub mod dict;
pub mod growth;
pub mod laws;
pub mod layout;
pub mod memory;
pub mod session;
pub mod setup;
pub mod snapshot;
pub mod text;
pub mod tracker;
