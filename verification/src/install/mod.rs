//! Installing components: clearing older installs, MySQL specifics and the
//! workflow around the component installers.

pub mod conflict;
pub mod mysql;
pub mod components;
pub mod workflow;
pub mod plan;
