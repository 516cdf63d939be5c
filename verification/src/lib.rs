//! Stateless chunk validation: the bounded pool that parks state witnesses whose
//! parent block is still unknown, the pre-validation and replay checks of a
//! witness, and the endorsement bookkeeping built on them.

pub mod action;
pub mod adapters;
pub mod bandwidth_request;
pub mod bandwidth_scheduler;
pub mod chunk_apply_stats;
pub mod chunk_validation;
pub mod client;
pub mod error;
pub mod hash;
pub mod lru_cache;
pub mod max_flow;
pub mod mock;
pub mod ordinal_inconsistency;
pub mod orphan_witness_pool;
pub mod outgoing_metadata;
pub mod pool_model;
pub mod pre_validation;
pub mod primitives;
pub mod receipt_groups;
pub mod recency;
pub mod replay_validation;
pub mod timer;
pub mod waiting_index;
