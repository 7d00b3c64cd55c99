//! A durable agent harness: the decisions that drive an agent session, the wire
//! protocol spoken with capability providers, and the configuration that binds
//! them together.
//!
//! Everything in this crate is free of input and output. Storage, processes,
//! clocks and sockets belong to the program that embeds it.

pub mod agent;
pub mod cli;
pub mod config;
pub mod conformance;
pub mod host;
pub mod identity;
pub mod json;
pub mod llm;
pub mod message;
pub mod protocol;
pub mod rows;
pub mod session;
pub mod text;
pub mod tools;
pub mod types;
