//! Core rules of a small HTTP file-storage service: the shared-secret guard,
//! file-name sanitising and naming, and the upload and delete pipelines.
//!
//! Everything here works on plain values. Reading the network and touching the
//! file system is left to the caller, which performs the actions these
//! functions decide on and reports back what happened.

pub mod config;
pub mod error;
pub mod handlers;
pub mod utils;
