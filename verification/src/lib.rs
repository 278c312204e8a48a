//! A dual-tier record store for binary artifacts (model files and imaging
//! scan files), with paired access metadata and typed change notifications.
//!
//! The `service` module holds the artifact service itself; `store` is the
//! keyed record store it is built on, and `tracker` maintains the metadata
//! entry paired with each stored artifact.

pub mod clock;
pub mod errors;
pub mod events;
pub mod ids;
pub mod laws;
pub mod records;
pub mod service;
pub mod store;
pub mod tracker;
