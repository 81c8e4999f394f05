//! Verified core of a streaming bibliographic-ingestion pipeline.
//!
//! Compressed newline-delimited JSON flows through a progress-tracked
//! decompression stage, is batched, parsed and normalized by parallel
//! workers, and is persisted with idempotent identity-keyed upserts.
//! This crate holds the verified logic of that pipeline: the line
//! parser, record validation and normalization, the persistence model,
//! and the small state machines (batching, progress, backpressure)
//! that the surrounding I/O threads drive.

pub mod json;
pub mod json_keys;
pub mod laws;
pub mod pipeline;
pub mod progress;
pub mod records;
pub mod store;
