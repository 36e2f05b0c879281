//! A cache-aside item lookup library.
//!
//! Given an item identifier, the service returns structured item data,
//! backed by a relational store and fronted by a bounded in-process cache
//! with first-in-first-out eviction. This crate holds the verified core:
//! the bounded cache, the decoding of store rows into domain records, and
//! the lookup coordinator that decides when the store must be consulted
//! and how its outcomes populate the cache and map to caller-facing
//! results. The store driver and the wire transport live outside; they
//! hand rows in as plain column values and receive plain results back.

pub mod cache;
pub mod lookup;
pub mod record;
pub mod store;
