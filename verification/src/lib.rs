//! Request-plane core of an inference gateway: normalization, authentication,
//! per-key quotas, request fingerprints, in-flight coalescing, micro-batching,
//! a response cache with expiry and a health-aware backend selector.
//!
//! The functions of this crate carry contracts that are proved. Time, I/O and
//! asynchronous plumbing belong to the caller, which hands in plain values
//! (timestamps, header text, received items) and performs the returned
//! actions. The two calls that leave the crate (SHA-256 and random
//! identifiers) stand behind small wrappers whose contracts are taken on trust
//! and say so.

pub mod auth;
pub mod backend;
pub mod batcher;
pub mod cache;
pub mod coalescing;
pub mod errors;
pub mod handlers;
pub mod limits;
pub mod models;
pub mod router;
pub mod scheduler;
pub mod table;
pub mod text;
