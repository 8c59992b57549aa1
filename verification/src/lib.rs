//! Core logic of a chat-workspace mirroring client: configuration merging,
//! the channel watch-list, identity and emoji caches, mention resolution,
//! image download decisions, and the push-event transport state machine.
//!
//! Network and file I/O live outside this crate; every function here is a
//! decision or a transformation on plain values, stated in its contract.

pub mod client;
pub mod config;
pub mod gateway;
pub mod images;
pub mod mentions;
pub mod profile;
pub mod storage;
pub mod strmap;
pub mod text;
pub mod transport;
