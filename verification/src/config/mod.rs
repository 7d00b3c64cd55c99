//! Configuration: what a configuration file says, what it compiles to, and how
//! layered scopes resolve.

pub mod credentials;
pub mod error;
pub mod loader;
pub mod model;
pub mod plan;
pub mod scope;
