//! A content-addressed, versioned entity store: immutable records chained into
//! entities, schema projections, chunked binary payloads and an anchor index.

pub mod chunks;
pub mod entity;
pub mod dna;
pub mod happ;
pub mod index;
pub mod record;
pub mod reviews;
pub mod store;
