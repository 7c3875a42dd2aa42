//! Persisted per-indexer state records and the rules that derive them.
use vstd::prelude::*;
use crate::lifecycle::LifecycleState;
use crate::registry::{IndexerConfig, full_name, block_stream_key, registry_version, make_full_name, make_block_stream_key};

verus! {

/// The state record of the format that predates per-indexer identity and lifecycle.
#[derive(Clone, Debug)]
pub struct OldIndexerState {
    pub block_stream_synced_at: Option<u64>,
    pub enabled: bool,
}

/// One indexer's persisted state.
#[derive(Clone, Debug)]
pub struct IndexerState {
    pub account_id: String,
    pub function_name: String,
    /// The registry version at which the block stream was last started.
    pub block_stream_synced_at: Option<u64>,
    pub enabled: bool,
    pub lifecycle_state: LifecycleState,
}

/// `"{account}/{function}:state"`.
pub open spec fn state_key(account_id: Seq<char>, function_name: Seq<char>) -> Seq<char> {
    full_name(account_id, function_name) + ":state"@
}

/// The state of an indexer seen for the first time.
pub open spec fn is_default_state_for(s: IndexerState, config: IndexerConfig) -> bool {
    &&& s.account_id@ == config.account_id@
    &&& s.function_name@ == config.function_name@
    &&& s.block_stream_synced_at is None
    &&& s.enabled
    &&& s.lifecycle_state == LifecycleState::Initializing
}

/// Two records that hold the same values.
pub open spec fn same_state(a: IndexerState, b: IndexerState) -> bool {
    &&& a.account_id@ == b.account_id@
    &&& a.function_name@ == b.function_name@
    &&& a.block_stream_synced_at == b.block_stream_synced_at
    &&& a.enabled == b.enabled
    &&& a.lifecycle_state == b.lifecycle_state
}

/// The state that a stored record, or its absence, stands for.
pub open spec fn resolved_state(r: IndexerState, config: IndexerConfig, stored: Option<IndexerState>) -> bool {
    match stored {
        Some(s) => same_state(r, s),
        None => is_default_state_for(r, config),
    }
}

impl IndexerState {
    pub fn get_state_key(&self) -> (r: String)
        ensures
            r@ == state_key(self.account_id@, self.function_name@),
    {
        let mut r = make_full_name(&self.account_id, &self.function_name);
        r.append(":state");
        r
    }

    pub fn get_redis_stream_key(&self) -> (r: String)
        ensures
            r@ == block_stream_key(self.account_id@, self.function_name@),
    {
        make_block_stream_key(&self.account_id, &self.function_name)
    }

    /// A copy that holds the same values.
    pub fn duplicate(&self) -> (r: IndexerState)
        ensures
            same_state(r, *self),
    {
        IndexerState {
            account_id: self.account_id.clone(),
            function_name: self.function_name.clone(),
            block_stream_synced_at: self.block_stream_synced_at,
            enabled: self.enabled,
            lifecycle_state: self.lifecycle_state,
        }
    }
}

/// Derives indexer state records from configurations and the records stored in
/// a key/value store, whose client it holds; the reads and writes happen around it.
pub struct IndexerStateManagerImpl<R> {
    pub redis_client: R,
}

impl<R> IndexerStateManagerImpl<R> {
    pub fn new(redis_client: R) -> (r: Self)
        ensures
            r.redis_client == redis_client,
    {
        IndexerStateManagerImpl { redis_client }
    }

    pub fn get_default_state(&self, indexer_config: &IndexerConfig) -> (r: IndexerState)
        ensures
            is_default_state_for(r, *indexer_config),
    {
        IndexerState {
            account_id: indexer_config.account_id.clone(),
            function_name: indexer_config.function_name.clone(),
            block_stream_synced_at: None,
            enabled: true,
            lifecycle_state: LifecycleState::Initializing,
        }
    }

    /// The state an indexer is in, given the record stored for it (if any).
    pub fn resolve_state(&self, indexer_config: &IndexerConfig, stored: Option<IndexerState>) -> (r: IndexerState)
        ensures
            resolved_state(r, *indexer_config, stored),
    {
        match stored {
            Some(s) => s,
            None => self.get_default_state(indexer_config),
        }
    }

    /// The record that replaces one of the old format (or its absence) during migration.
    pub fn migrated_state(&self, indexer_config: &IndexerConfig, old: Option<OldIndexerState>) -> (r: IndexerState)
        ensures
            r.account_id@ == indexer_config.account_id@,
            r.function_name@ == indexer_config.function_name@,
            r.lifecycle_state == LifecycleState::Initializing,
            match old {
                Some(o) => r.block_stream_synced_at == o.block_stream_synced_at && r.enabled == o.enabled,
                None => r.block_stream_synced_at is None && r.enabled,
            },
    {
        match old {
            Some(o) => IndexerState {
                account_id: indexer_config.account_id.clone(),
                function_name: indexer_config.function_name.clone(),
                block_stream_synced_at: o.block_stream_synced_at,
                enabled: o.enabled,
                lifecycle_state: LifecycleState::Initializing,
            },
            None => self.get_default_state(indexer_config),
        }
    }

    /// The stored state, marked as synchronised at the configuration's registry version.
    pub fn synced_state(&self, indexer_config: &IndexerConfig, stored: Option<IndexerState>) -> (r: IndexerState)
        ensures
            exists|s: IndexerState| #[trigger] resolved_state(s, *indexer_config, stored)
                && r.account_id@ == s.account_id@ && r.function_name@ == s.function_name@
                && r.enabled == s.enabled && r.lifecycle_state == s.lifecycle_state,
            r.block_stream_synced_at == Some(
                registry_version(indexer_config.updated_at_block_height, indexer_config.created_at_block_height),
            ),
    {
        let mut s = self.resolve_state(indexer_config, stored);
        let ghost s0 = s;
        s.block_stream_synced_at = Some(indexer_config.get_registry_version());
        assert(resolved_state(s0, *indexer_config, stored));
        s
    }

    /// The stored state with its on/off switch set to `enabled`.
    pub fn enabled_state(&self, indexer_config: &IndexerConfig, stored: Option<IndexerState>, enabled: bool) -> (r: IndexerState)
        ensures
            exists|s: IndexerState| #[trigger] resolved_state(s, *indexer_config, stored)
                && r.account_id@ == s.account_id@ && r.function_name@ == s.function_name@
                && r.block_stream_synced_at == s.block_stream_synced_at
                && r.lifecycle_state == s.lifecycle_state,
            r.enabled == enabled,
    {
        let mut s = self.resolve_state(indexer_config, stored);
        let ghost s0 = s;
        s.enabled = enabled;
        assert(resolved_state(s0, *indexer_config, stored));
        s
    }
}

} // verus!
