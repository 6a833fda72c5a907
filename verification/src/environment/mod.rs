//! The build environment: its result types, isolation levels and sandbox
//! configuration.
pub mod hermetic;
pub mod sandbox;
pub mod types;
pub mod build_env;
pub mod isolation;
pub mod execution;
pub mod deps;
