//! Event-sourced character-tracking engine for a game API.
//!
//! The crate verifies the core of the tracker: the signature-snapshot
//! parser, the append-only event log with its monotonic global sequence,
//! the projection runtime with its monotonic replay guard, the session
//! and refresh-schedule decisions of the auth layer, and the movement
//! derivation and backoff rules of the location ingestor.

pub mod auth;
pub mod events;
pub mod facade;
pub mod ids;
pub mod ingestor;
pub mod projection;
pub mod resolve;
pub mod signatures;
pub mod store;
pub mod strutil;
pub mod time;
