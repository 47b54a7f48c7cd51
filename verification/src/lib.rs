//! A verified song-play tracker: timestamped play logs referencing songs,
//! turned into three derived views — the most recently played song, a
//! global leaderboard by play count with full date history, and the play
//! history of one song — behind a read-through cache with per-entry TTLs.
//!
//! `store` holds the two relations and the row-fetch queries; `aggregate`
//! is the pure transformation logic; `cache` is the TTL key/value layer;
//! `service` orchestrates cache lookup, store fetch, transform, and cache
//! populate for each query shape. Every function carries its contract.

pub mod aggregate;
pub mod cache;
pub mod domain;
pub mod service;
pub mod store;
