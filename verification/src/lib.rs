//! Verified core of the dbt engine.

pub mod athena;
pub mod databricks;
pub mod deps;
pub mod file_security;
pub mod json;
pub mod number;
pub mod ordered;
pub mod profile;
pub mod relation;
pub mod retry;
pub mod schemas;
pub mod snowflake;
pub mod state;
pub mod text;
pub mod text_laws;
pub mod value;
pub mod vars;
pub mod wap;
