//! The agent: what it does next, given what its session's history adds up to.

pub mod actor;
pub mod bootstrap;
pub mod command;
pub mod drafts;
pub mod error;
pub mod event_source;
pub mod handle;
pub mod llm_runtime;
pub mod loop_driver;
pub mod operation;
pub mod recovery;
pub mod runtime;
pub mod state;
pub mod tool_driver;
pub mod tool_runtime;
