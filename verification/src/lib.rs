//! Client-side trust cache for a censorship-resistant proxy network.
//!
//! The crate mediates between a local client and a remote authority
//! ("binder"): it acquires blind-signed authorization tokens, lists of
//! relay ("exit") descriptors and per-exit bridge descriptors, and keeps
//! them in a TTL-aware, per-account store.

pub mod client;
pub mod data;
pub mod kv;
pub mod outside;
pub mod protocol;
