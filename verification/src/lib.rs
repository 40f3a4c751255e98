//! Arrow record batches from Qdrant points.

pub mod arrow;
pub mod error;
pub mod laws;
pub mod payload;
pub mod qdrant;
pub mod text;
