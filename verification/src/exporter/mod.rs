//! Exporters: what the debug exporter reports of each batch.

pub mod debug;
