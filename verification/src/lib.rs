//! Address resolution, payload descriptors, relay decisions, query
//! selection and stream sinks for a WASI socket relay and its stream host,
//! with their contracts proved by Verus.

pub mod address;
pub mod payload;
pub mod query;
pub mod receive;
pub mod relay;
pub mod socket;
pub mod stream;
