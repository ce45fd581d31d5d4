//! A verified persistence and retrieval layer for a dashboard application:
//! users own boards of positioned panels, and panels may be bound to globally
//! shared datasets of append-only JSON rows. The record store is an
//! in-memory table set; credential hashing, identifier generation, timestamps
//! and JSON encoding are done by outside crates behind trusted items.

pub mod auth;
pub mod board;
pub mod codec;
pub mod crypto;
pub mod idgen;
pub mod laws;
pub mod models;
pub mod stats;
pub mod store;
