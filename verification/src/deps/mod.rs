//! Packages that a project depends on.

pub mod laws;
pub mod package_checksum;
pub mod python_json;
