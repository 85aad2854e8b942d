//! Verified core of the JobHunting platform: profile and wiki parsing, the
//! knowledge-graph queries, crawler and provider rules, the JSON model the
//! LLM pipeline reads, and the decision steps of its retry and review loops.
use vstd::prelude::*;

pub mod assoc;
pub mod crawler;
pub mod ingest;
pub mod json;
pub mod lint;
pub mod pipeline;
pub mod profile;
pub mod provider;
pub mod roles;
pub mod settings;
pub mod sorting;
pub mod text;
pub mod transport;
pub mod views;
pub mod wiki_graph;

verus! {

} // verus!
