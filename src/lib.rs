//! A storage backend that presents a flat object store (buckets of keyed
//! objects) as a hierarchical filesystem: paths, directories, listings,
//! reads and writes.
//!
//! Network work (token fetching, HTTP transport) is done by the host; this
//! library owns every decision around it: object keys, request shapes,
//! response classification, metadata decoding, listings and the multi-step
//! operations.
pub mod error;
pub mod codec;
pub mod path;
pub mod metadata;
pub mod object;
pub mod request;
pub mod response;
pub mod listing;
pub mod backend;
pub mod laws;
