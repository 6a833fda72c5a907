//! Verified core of the sps2 package builder: the parsers, argument and
//! environment builders, decision rules and data structures that the build
//! pipeline runs on, each with its contract.
pub mod api;
pub mod artifact_qa;
pub mod build_context;
pub mod build_flow;
pub mod build_plan;
pub mod build_systems;
pub mod cache;
pub mod compression;
pub mod config;
pub mod cross;
pub mod dependencies;
pub mod environment;
pub mod error_handling;
pub mod errors;
pub mod format;
pub mod paths;
pub mod string_map;
pub mod text;
