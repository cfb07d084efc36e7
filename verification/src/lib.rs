//! A workflow engine whose decisions are verified.
use vstd::prelude::*;

pub mod text;
pub mod string_map;
pub mod value;
pub mod json;
pub mod error;
pub mod parameter_bus;
pub mod context_sync;
pub mod node;
pub mod workflow;
pub mod run;
pub mod llm;
pub mod nodes;
pub mod config;
pub mod builder;
pub mod prompt;
pub mod ws;

verus! {

} // verus!
