//! Processors of the pipeline: the batching accumulator and the memory
//! circuit breaker, as decisions taken on plain values.

pub mod batch;
pub mod memory;
