//! Variables that templates see.

pub mod env_var;
pub mod laws;
pub mod yaml;
