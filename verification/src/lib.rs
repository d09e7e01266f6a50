//! Routing rules and message summaries for a small messaging relay.

pub mod broker;
pub mod config;
pub mod crop;
pub mod crop_laws;
pub mod interop;
pub mod json;
pub mod lifecycle;
pub mod summary;
pub mod text;
