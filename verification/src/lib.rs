use vstd::prelude::*;

pub mod text;
pub mod text_facts;
pub mod json;
pub mod stage;
pub mod genre_skill;
pub mod error;
pub mod models;
pub mod genre_agent;
pub mod agent_tools;
pub mod digest;
pub mod chapter_memory;
pub mod continuity_ledger;
pub mod gate;
pub mod ai;
pub mod ai_reply;
pub mod stream_reply;
pub mod crypto;
pub mod agent_run_service;
pub mod index_jobs;
pub mod db;
pub mod adoption;
pub mod context_search;
pub mod search_hits;

verus! {
} // verus!
