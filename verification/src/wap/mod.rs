//! Write, audit, publish: tables that are built under a working name, audited there, and
//! published only when every audit passed.

pub mod audit;
pub mod inspect;
pub mod invocation;
pub mod laws;
pub mod nodes;
pub mod plan;
pub mod plan_laws;
pub mod publication;
pub mod publish;
pub mod run_laws;
pub mod schedule;
pub mod stage;
