use vstd::prelude::*;

pub mod text;
pub mod json;
pub mod types;
pub mod sort;
pub mod tools;
pub mod config;
pub mod llm;
pub mod ranker;
pub mod progress;
pub mod result_organizer;
pub mod orchestrator;
pub mod agent;
pub mod openalex;
pub mod search_engine;
pub mod query_decomposer;
pub mod commands;

verus! {

} // verus!
