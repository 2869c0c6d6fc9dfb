//! Orchestration engine for bootstrapping a development toolchain.
//!
//! The library covers the pure coordination logic: dependency resolution over
//! a registry of tool capabilities, construction of a three-phase execution
//! plan, step-wise execution with phase ordering and abort rules, named
//! resource locks with deadline and backoff schedules, retry classification
//! with exponential backoff, and resumable checkpoints keyed by a plan hash.
//! Process invocation, file and terminal I/O stay outside, in the binary that
//! drives this library.

pub mod checkpoint;
pub mod config;
pub mod context;
pub mod errors;
pub mod registry;
pub mod executor;
pub mod exit_codes;
pub mod installers;
pub mod lock;
pub mod plan;
pub mod retry;
pub mod doctor;
pub mod progress;
pub mod textutil;
pub mod strutil;
pub mod version;
