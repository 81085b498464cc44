//! Chaindexing: an EVM event indexer core whose planning, configuration,
//! reorg bookkeeping and SQL text generation are verified with Verus.
#![allow(unused_imports)]

use vstd::prelude::*;

pub mod text;
pub mod pruning;
pub mod runtime_config;
pub mod tls;
pub mod inspection;
pub mod local_backend;
pub mod events;
pub mod outbox;
pub mod chain_reorg;
pub mod ingestion;
pub mod char_seq;
pub mod state_migrations;
pub mod field_map;
pub mod states;
pub mod state_versions;
pub mod contract_states;
pub mod root;
pub mod raw_queries;
pub mod repo;
pub mod repo_migrations;
pub mod reset_counts;
pub mod nodes;
pub mod errors;

verus! {
} // verus!
