//! The Arrow side: turning points into record batches.

pub mod batch;
pub mod columns;
pub mod deserialize;
pub mod extractor;
pub mod schema;
