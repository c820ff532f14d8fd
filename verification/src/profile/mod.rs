//! Connection profiles.

pub mod athena_config;
pub mod laws;
