//! What dbt State clients agree on.

pub mod laws;
pub mod materialization;
pub mod telemetry;
