//! Verified core of a CCTV image-ingestion pipeline.
//!
//! The library covers the logic of the pipeline: credential caching,
//! filename and datetime normalization, batch-result correlation,
//! vector-point construction, and the per-run schedule window.
//! Network transport and the HTTP surface live outside the library.

pub mod clock;
pub mod credential;
pub mod datetime;
pub mod filename;
pub mod models;
pub mod payload;
pub mod pipeline;
pub mod store;
pub mod strutil;
