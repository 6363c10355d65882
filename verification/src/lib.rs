//! Chain-synchronization engine for a Lightning node.
//!
//! The library reconciles an in-memory view of transaction and output
//! confirmation status against a remote block-data provider, and produces
//! ordered confirmation events for channel-state consumers.  All remote
//! queries are expressed as data: the engine hands the caller a [`types::Query`]
//! to perform and is driven forward with the answer as a [`types::Event`],
//! so the reconciliation logic itself is fully verified while the transport
//! stays outside the crate.

pub mod engine;
pub mod fee;
pub mod registry;
pub mod resolve;
pub mod types;
