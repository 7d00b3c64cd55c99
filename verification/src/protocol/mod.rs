//! The language-neutral provider protocol: JSON-RPC 2.0 over lines of JSON.

pub mod codec;
pub mod common;
pub mod jsonrpc;
pub mod lifecycle;
pub mod llm;
pub mod manifest;
pub mod tool;
