//! A verified image-blob store: records of compressed image bytes and their
//! MIME type, kept under caller-chosen identifiers by interchangeable
//! backend adapters, and delivered over HTTP after transparent
//! decompression.

pub mod codec;
pub mod db;
pub mod errors;
pub mod model;
pub mod options;
pub mod routes;
