//! The system environment: `PATH` text and the decisions of environment changes.

pub mod path_entry;
pub mod path_laws;
pub mod env_config;
