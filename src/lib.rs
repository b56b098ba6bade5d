//! A consensus code-review orchestrator: evaluator output parsing, voting
//! rules, finding aggregation, a pattern knowledge base, an evaluation
//! cache, hooks and the JSON-RPC tool layer.
use vstd::prelude::*;

pub mod aggregator;
pub mod bank;
pub mod cache;
pub mod classifier;
pub mod clock;
pub mod config;
pub mod digest;
pub mod engine;
pub mod errors;
pub mod executors;
pub mod hooks;
pub mod parser;
pub mod patterns;
pub mod protocol;
pub mod rules;
pub mod server;
pub mod tally;
pub mod text;
pub mod tools;
pub mod transport;
pub mod types;

verus! {

} // verus!
