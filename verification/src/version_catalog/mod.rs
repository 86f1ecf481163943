//! Version catalogs: where each component's versions come from, how they are
//! filtered and ordered, and which must stay selectable.

pub mod semver;
pub mod options;
pub mod laws;
pub mod sort;
pub mod pattern;
pub mod maven;
pub mod jdk;
pub mod mysql;
pub mod nodejs;
pub mod tomcat;
pub mod catalog_laws;
pub mod listings;
pub mod selection_laws;
