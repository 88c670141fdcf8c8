//! Verified core of a telemetry ingestion pipeline: payload validation and
//! columnar record construction, component registry and pipeline assembly,
//! batching and memory gating decisions, and the exporter retry protocol.

pub mod error;
pub mod json;
pub mod record;
pub mod receiver;
pub mod pipeline;
pub mod executor;
pub mod table;
pub mod config;
pub mod registry;
pub mod attrs;
pub mod types;
pub mod processor;
pub mod engine;
pub mod exporter;
