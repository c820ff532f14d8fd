//! The Databricks adapter: what a relation is configured with.

pub mod laws;
pub mod refresh;
pub mod schedule_text;
