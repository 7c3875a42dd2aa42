//! Historical block backfill for an indexing platform: bitmap decoding,
//! index-file location, the backfill pipeline's decisions, the object-store
//! request coalescer and the indexer lifecycle state machine.

pub mod text;
pub mod dates;
pub mod bitmap;
pub mod registry;
pub mod delta_lake;
pub mod backfill;
pub mod lake_cache;
pub mod indexer_state;
pub mod lifecycle;
