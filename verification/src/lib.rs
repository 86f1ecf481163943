//! Verified core of a Windows development-environment installer: version
//! catalogs, PATH string handling and the decisions of the install workflow.

pub mod text;
pub mod types;
pub mod version_policy;
pub mod version_catalog;
pub mod system;
pub mod install;
