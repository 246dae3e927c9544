//! Core engine of a catalog service: a typed in-process cache with bulk
//! group invalidation, a binary serialization adapter, a background-refresh
//! state machine, a task dependency graph with completion propagation, and
//! keyset-aware pagination for the cached read paths.
//!
//! Everything here is plain computation on plain values; the surrounding
//! process does the I/O (SQL, HTTP, timers) and hands results in.


pub mod cache;
pub mod codec;
pub mod feed;
pub mod graph;
pub mod keys;
pub mod keyset;
pub mod pages;
pub mod propagate;
pub mod query;
pub mod readpath;
pub mod refresh;
pub mod types;
pub mod strutil;
pub mod tags;
