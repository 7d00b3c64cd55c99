//! The single owner of a session: every change of the session goes through it.
//!
//! The actor decides and drafts. Writing drafts to storage, projecting the
//! history and running model and tool calls is done by the program around it,
//! which hands back what came of it.

pub mod append;
pub mod cancel;
pub mod control;
pub mod driving;
pub mod model;
pub mod tool_support;

