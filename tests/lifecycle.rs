use historical_backfill::indexer_state::{IndexerState, IndexerStateManagerImpl};
use historical_backfill::lifecycle::{Effect, LifecycleState, LifecycleTick, Step};
use historical_backfill::registry::{IndexerConfig, MatchingRule, Status};

fn config() -> IndexerConfig {
    IndexerConfig {
        account_id: "morgs.near".to_string(),
        function_name: "test".to_string(),
        code: String::new(),
        start_block_height: Some(100),
        schema: None,
        rule: MatchingRule::ActionAny { affected_account_id: "a.near".to_string(), status: Status::Any },
        updated_at_block_height: Some(200),
        created_at_block_height: 1,
    }
}

fn state(lifecycle_state: LifecycleState, enabled: bool) -> IndexerState {
    IndexerState {
        account_id: "morgs.near".to_string(),
        function_name: "test".to_string(),
        block_stream_synced_at: None,
        enabled,
        lifecycle_state,
    }
}

/// Runs one tick, answering effects from `outcomes` in order; returns the effects and the settled state.
fn run(tick: &mut LifecycleTick, outcomes: &[bool]) -> (Vec<Effect>, LifecycleState) {
    let mut effects = vec![];
    let mut step = tick.start();
    let mut i = 0;
    loop {
        match step {
            Step::Settle(s) => return (effects, s),
            Step::Perform(e) => {
                effects.push(e);
                step = tick.after(e, outcomes[i]);
                i += 1;
            }
        }
    }
}

#[test]
fn initializing_reaches_running_in_one_tick() {
    let mut tick = LifecycleTick::new(state(LifecycleState::Initializing, true), Some(200));
    assert_eq!(run(&mut tick, &[true]), (vec![Effect::EnsureProvisioned], LifecycleState::Running));
    let mut failing = LifecycleTick::new(state(LifecycleState::Initializing, true), Some(200));
    assert_eq!(run(&mut failing, &[false]).1, LifecycleState::Repairing);
}

#[test]
fn running_synchronises_and_records_version() {
    let mut tick = LifecycleTick::new(state(LifecycleState::Running, true), Some(200));
    let (effects, next) = run(&mut tick, &[true, true]);
    assert_eq!(effects, vec![Effect::SynchroniseBlockStream, Effect::SynchroniseExecutor]);
    assert_eq!(next, LifecycleState::Running);
    assert_eq!(tick.state.block_stream_synced_at, Some(200));
    let mut failing = LifecycleTick::new(state(LifecycleState::Running, true), Some(200));
    assert_eq!(run(&mut failing, &[false]), (vec![Effect::SynchroniseBlockStream], LifecycleState::Running));
    assert_eq!(failing.state.block_stream_synced_at, None);
}

#[test]
fn disabled_indexer_stops_within_two_ticks() {
    let mut first = LifecycleTick::new(state(LifecycleState::Running, false), Some(200));
    let (effects, next) = run(&mut first, &[]);
    assert!(effects.is_empty());
    assert_eq!(next, LifecycleState::Stopping);
    assert!(first.conclude(next));
    let mut second = LifecycleTick::new(first.state.duplicate(), Some(200));
    let (effects, next) = run(&mut second, &[true, true]);
    assert_eq!(effects, vec![Effect::StopBlockStream, Effect::StopExecutor]);
    assert_eq!(next, LifecycleState::Stopped);
    let mut retry = LifecycleTick::new(state(LifecycleState::Stopping, false), Some(200));
    assert_eq!(run(&mut retry, &[false]).1, LifecycleState::Stopping);
}

#[test]
fn stopped_indexer_resumes_when_enabled() {
    let mut tick = LifecycleTick::new(state(LifecycleState::Stopped, true), Some(200));
    assert_eq!(run(&mut tick, &[]).1, LifecycleState::Running);
    let mut idle = LifecycleTick::new(state(LifecycleState::Stopped, false), Some(200));
    assert_eq!(run(&mut idle, &[]).1, LifecycleState::Stopped);
    let mut repairing = LifecycleTick::new(state(LifecycleState::Repairing, true), Some(200));
    assert_eq!(run(&mut repairing, &[]).1, LifecycleState::Repairing);
}

#[test]
fn removed_indexer_is_deleted() {
    for s in [
        LifecycleState::Initializing,
        LifecycleState::Running,
        LifecycleState::Stopping,
        LifecycleState::Stopped,
        LifecycleState::Repairing,
    ] {
        let mut tick = LifecycleTick::new(state(s, true), None);
        assert_eq!(run(&mut tick, &[]).1, LifecycleState::Deleting);
    }
    let mut tick = LifecycleTick::new(state(LifecycleState::Deleting, true), None);
    let (effects, next) = run(&mut tick, &[false, true, true, true, true]);
    assert_eq!(
        effects,
        vec![
            Effect::StopBlockStream,
            Effect::StopExecutor,
            Effect::DeleteState,
            Effect::DeleteStream,
            Effect::EnsureDeprovisioned
        ]
    );
    assert_eq!(next, LifecycleState::Deleted);
    assert!(!tick.conclude(next));
    let mut retry = LifecycleTick::new(state(LifecycleState::Deleting, true), None);
    assert_eq!(run(&mut retry, &[true, true, false]).1, LifecycleState::Deleting);
    let mut unprovisioned = LifecycleTick::new(state(LifecycleState::Deleting, true), None);
    let (effects, next) = run(&mut unprovisioned, &[true, true, true, true, false]);
    assert_eq!(effects.last(), Some(&Effect::EnsureDeprovisioned));
    assert_eq!(next, LifecycleState::Deleting);
    let mut done = LifecycleTick::new(state(LifecycleState::Deleted, true), None);
    assert_eq!(run(&mut done, &[]).1, LifecycleState::Deleted);
}

#[test]
fn default_lifecycle_state_is_initializing() {
    assert_eq!(LifecycleState::default(), LifecycleState::Initializing);
    let manager = IndexerStateManagerImpl::new(());
    let s = manager.get_default_state(&config());
    assert_eq!(s.lifecycle_state, LifecycleState::Initializing);
}
