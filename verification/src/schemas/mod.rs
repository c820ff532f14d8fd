//! Schemas of the files that a project consists of.

pub mod laws;
pub mod man;
pub mod warehouse_scope;
