//! Verified core of a provenance-capturing container image builder.
//!
//! The library models the pieces of the build pipeline that carry logic worth
//! proving: a registry of cached source repositories with single-flight
//! initialization, the provenance ledger that deduplicates fetched resources
//! into a bill-of-materials document, the request handling of the proxy that
//! the build's fetches are routed through, and the planning and result
//! handling of the image-build subprocess. Subprocess execution, networking
//! and the file system stay outside; the functions here plan those effects
//! and interpret their outcomes.

pub mod bom;
pub mod cache;
pub mod config;
pub mod docker;
pub mod errors;
pub mod git_context;
pub mod hash;
pub mod proxy;
pub mod registry;
pub mod sbom;
pub mod text;
pub mod user_config;
