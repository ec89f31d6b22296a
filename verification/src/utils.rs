//! Building blocks shared by the request handlers.

pub mod auth;
pub mod naming;
pub mod sanitize;
pub mod text;
pub mod transcode;
