//! State-access layer of a contract-execution engine.
//!
//! During the execution of a transaction every read and write of contract
//! state (storage cells, nonces, class hashes) goes through a
//! [`cached_state::CachedState`]. Reads fall through to a read-only state
//! source on first access and are answered from the cache afterwards; writes
//! stay in the cache. The value that each cell had before the execution stays
//! recoverable, so that the execution's diff can be handed out at its end.
//!
//! - [`felt`]: field elements and the identifiers built from them.
//! - [`big_endian`]: numbers written as big-endian bytes.
//! - [`cell_map`]: the insertion-ordered map that the caches are made of.
//! - [`layers`]: the mathematical model of a cell family, and what holds of it.
//! - [`state_cache`]: the layered cache of the three cell families.
//! - [`cached_state`]: the state source and the cached state over it.
//! - [`execution`]: what the state layer shares with the Cairo runner.
//! - [`error`]: the ways in which access to contract state fails.

pub mod big_endian;
pub mod cached_state;
pub mod cell_map;
pub mod error;
pub mod execution;
pub mod felt;
pub mod layers;
pub mod state_cache;
