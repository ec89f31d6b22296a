//! The decisions behind the upload and delete endpoints.

pub mod delete;
pub mod upload;
