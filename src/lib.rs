//! Coordination core of a sharded chat-bot client: fleet readiness across
//! shards, aggregate statistics, command gating and the shared caches that
//! event handlers read and update.
pub mod config;
pub mod counts;
pub mod gateway;
pub mod lifecycle;
pub mod pending;
pub mod shards;
pub mod stats;
