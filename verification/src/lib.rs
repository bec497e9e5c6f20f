//! A verified streaming aggregation pipeline for bike-purchase events.
//!
//! The library holds the pure core of the pipeline: the binary wire codec
//! for purchase records and aggregate snapshots, the schema registrar with
//! its idempotence and conflict rules, the connection-bootstrap retry
//! discipline, the aggregation fold, and the per-message driver step.
//! Broker and registry I/O live outside the library; they hand raw bytes
//! and attempt outcomes in, and take encoded payloads and decisions back.

pub mod aggregate;
pub mod bootstrap;
pub mod codec;
pub mod errors;
pub mod pipeline;
pub mod records;
pub mod registry;
pub mod schema;
pub mod users;
pub mod wire;
