//! Compiles REST endpoint descriptors into URL-building and request source code.
//!
//! The pipeline: path templates are parsed into segments, endpoints are
//! normalised (one verb, one path per shape), URL builders are generated in
//! one of two styles, and the result is printed as source text. The modules
//! `indices`, `cluster`, `snapshot` and `api` hold URL builders of particular
//! endpoints, written in the push style.

pub mod error;
pub mod template;
pub mod urlgen;
pub mod names;
pub mod endpoint;
pub mod normalize;
pub mod request;
pub mod emit;
pub mod pipeline;
pub mod buffer;
pub mod indices;
pub mod cluster;
pub mod snapshot;
pub mod api;
