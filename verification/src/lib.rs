//! Columnar data exchange across a foreign-function boundary.
//!
//! A host runtime hands columnar batches and schemas to a native dataset
//! engine through descriptor structures laid out per a standardized columnar
//! interchange format. This crate holds the verified core of that exchange:
//! a schema codec between boundary descriptors and native schemas, an array
//! importer that validates and reconstructs batches from descriptors, an
//! array exporter that serializes batches back into descriptor pairs, and
//! the bridge entry points that validate range and index reads, single
//! writes and streaming writes before the engine is invoked.

pub mod batch;
pub mod bridge;
pub mod error;
pub mod exchange;
pub mod schema;
pub mod util;
