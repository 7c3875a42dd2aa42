use historical_backfill::indexer_state::{IndexerState, IndexerStateManagerImpl, OldIndexerState};
use historical_backfill::lifecycle::LifecycleState;
use historical_backfill::registry::{IndexerConfig, MatchingRule, Status};

fn config(updated: Option<u64>) -> IndexerConfig {
    IndexerConfig {
        account_id: "morgs.near".to_string(),
        function_name: "test".to_string(),
        code: "return block;".to_string(),
        start_block_height: Some(200),
        schema: Some("schema".to_string()),
        rule: MatchingRule::ActionAny { affected_account_id: "queryapi.dataplatform.near".to_string(), status: Status::Any },
        updated_at_block_height: updated,
        created_at_block_height: 123,
    }
}

#[test]
fn keys_and_names() {
    let c = config(None);
    assert_eq!(c.get_full_name(), "morgs.near/test");
    assert_eq!(c.get_redis_stream(), "morgs.near/test:block_stream");
    assert_eq!(c.get_registry_version(), 123);
    assert_eq!(config(Some(456)).get_registry_version(), 456);
    let manager = IndexerStateManagerImpl::new(());
    let s = manager.get_default_state(&c);
    assert_eq!(s.get_state_key(), "morgs.near/test:state");
    assert_eq!(s.get_redis_stream_key(), "morgs.near/test:block_stream");
}

#[test]
fn default_state_is_enabled_and_unsynced() {
    let manager = IndexerStateManagerImpl::new(());
    let s = manager.resolve_state(&config(None), None);
    assert_eq!(s.account_id, "morgs.near");
    assert_eq!(s.function_name, "test");
    assert_eq!(s.block_stream_synced_at, None);
    assert!(s.enabled);
    assert_eq!(s.lifecycle_state, LifecycleState::Initializing);
}

#[test]
fn stored_state_wins_over_default() {
    let manager = IndexerStateManagerImpl::new(());
    let stored = IndexerState {
        account_id: "morgs.near".to_string(),
        function_name: "test".to_string(),
        block_stream_synced_at: Some(200),
        enabled: false,
        lifecycle_state: LifecycleState::Stopped,
    };
    let s = manager.resolve_state(&config(None), Some(stored));
    assert_eq!(s.block_stream_synced_at, Some(200));
    assert!(!s.enabled);
    assert_eq!(s.lifecycle_state, LifecycleState::Stopped);
}

#[test]
fn indexer_state_migrate() {
    let manager = IndexerStateManagerImpl::new(());
    let config1 = config(None);
    let mut config2 = config(None);
    config2.account_id = "darunrs.near".to_string();
    let old = OldIndexerState { block_stream_synced_at: Some(200), enabled: false };
    let morgs_state = manager.migrated_state(&config1, Some(old));
    assert_eq!(morgs_state.account_id, "morgs.near");
    assert_eq!(morgs_state.function_name, "test");
    assert_eq!(morgs_state.block_stream_synced_at, Some(200));
    assert!(!morgs_state.enabled);
    let darunrs_state = manager.migrated_state(&config2, None);
    assert_eq!(darunrs_state.account_id, "darunrs.near");
    assert_eq!(darunrs_state.function_name, "test");
    assert_eq!(darunrs_state.block_stream_synced_at, None);
    assert!(darunrs_state.enabled);
}

#[test]
fn disable_indexer() {
    let manager = IndexerStateManagerImpl::new(());
    let mut indexer_config = config(None);
    indexer_config.created_at_block_height = 1;
    let stored = IndexerState {
        account_id: "morgs.near".to_string(),
        function_name: "test".to_string(),
        block_stream_synced_at: Some(123),
        enabled: true,
        lifecycle_state: LifecycleState::Initializing,
    };
    let s = manager.enabled_state(&indexer_config, Some(stored), false);
    assert_eq!(s.account_id, "morgs.near");
    assert_eq!(s.function_name, "test");
    assert_eq!(s.block_stream_synced_at, Some(123));
    assert!(!s.enabled);
}

#[test]
fn synced_state_records_registry_version() {
    let manager = IndexerStateManagerImpl::new(());
    let s = manager.synced_state(&config(Some(456)), None);
    assert_eq!(s.block_stream_synced_at, Some(456));
    assert!(s.enabled);
}

#[test]
fn historical_storage_key_follows_full_name() {
    assert_eq!(config(None).get_historical_storage_key(), "morgs.near/test:historical_storage");
}
