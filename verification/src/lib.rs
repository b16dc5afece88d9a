//! Core of a read-through caching proxy for a game-account web API.
//!
//! The crate holds the verified logic: the credential type and its expiry
//! rules, the durable value codec, the volatile credential store, the
//! per-account cache of fetched documents, the refresh queue, the manager
//! state machine that keeps credentials fresh, and the per-request handler
//! decisions. Network and disk I/O live outside, feeding events and fetched
//! documents into these functions and carrying their actions out.

pub mod ids;
pub mod auth;
pub mod models;
pub mod cache;
pub mod queue;
pub mod storage;
pub mod manager;
pub mod handlers;
pub mod codec;
pub mod laws;
pub mod clock;
mod text;
