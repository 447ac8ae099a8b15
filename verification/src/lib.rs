//! A content-addressable thumbnail cache core: fingerprinting, candidate
//! selection, the multi-strategy preview generation pipeline, the orphan
//! sweep, and the cancellable batch job that keeps the cache filled.
//!
//! The library holds the decisions and the data transformations; a host
//! shell performs the filesystem reads, subprocess invocations and event
//! emission, feeding their outcomes back in as plain values.

pub mod archive;
pub mod batch;
pub mod bytesutil;
pub mod encode;
pub mod error;
pub mod fingerprint;
pub mod models;
pub mod paths;
pub mod pipeline;
pub mod scan;
pub mod stats;
pub mod sweep;
pub mod text;
