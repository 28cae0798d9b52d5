//! Shared services.

pub mod ban;
pub mod snowflake;
