//! Where code runs.
pub mod environment;
