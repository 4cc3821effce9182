//! A pipeline orchestrator for a music-tagging tool: named modules with
//! declared dependencies run in configured stages against two shared
//! documents (a global context and an ordered song list). The planner
//! validates that every dependency is scheduled in a strictly earlier
//! stage; the executor advances stage by stage and stops at the first
//! failing module.
#![verifier::loop_isolation(false)]

pub mod cmdline;
pub mod config;
pub mod errors;
pub mod executor;
pub mod module_util;
pub mod modules;
pub mod plan;
pub mod structs;
pub mod tagging;
pub mod text;
pub mod values;
