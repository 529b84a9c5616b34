//! Telisq: plan parsing, validation and execution bookkeeping.
use vstd::prelude::*;

pub mod text;
pub mod types;
pub mod errors;
pub mod plan;
pub mod brief;
pub mod llm;
pub mod agents;
pub mod orchestrator;
pub mod run;
pub mod run_law;
pub mod cli;
pub mod patcher;
pub mod crawler;
pub mod mcp;
pub mod tools;
pub mod registry;
pub mod session;
pub mod config;
pub mod index;
pub mod tui;

verus! {

} // verus!
