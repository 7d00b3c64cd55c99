//! The host of provider processes: correlation of requests, routing of streams,
//! the life of a provider slot, and the step from wire values to domain values.

pub mod adapter;
pub mod binding;
pub mod connection;
pub mod error;
pub mod slot;
