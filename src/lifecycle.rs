//! The per-indexer lifecycle state machine.
//!
//! One reconciliation tick starts from the indexer's lifecycle state, whether its
//! configuration is still registered, and its on/off switch. The machine then asks
//! for effects one at a time (provision, synchronise, stop, delete), is told whether
//! each succeeded, and finally settles on the next lifecycle state.
use vstd::prelude::*;
use crate::indexer_state::IndexerState;

verus! {

/// The lifecycle states of an indexer.
#[derive(Clone, Copy, Debug, PartialEq, Eq, Structural)]
pub enum LifecycleState {
    /// Data-layer resources are being created.
    Initializing,
    /// Block stream and executor are kept on the latest registry version.
    Running,
    /// Block stream and executor are being stopped.
    Stopping,
    /// Block stream and executor are not running.
    Stopped,
    /// Waiting for remediation.
    Repairing,
    /// All resources are being removed.
    Deleting,
    /// Everything is removed; the lifecycle ends.
    Deleted,
}

impl Default for LifecycleState {
    fn default() -> (r: Self)
        ensures
            r == LifecycleState::Initializing,
    {
        LifecycleState::Initializing
    }
}

/// Work a tick asks to have done outside the machine.
#[derive(Clone, Copy, Debug, PartialEq, Eq, Structural)]
pub enum Effect {
    EnsureProvisioned,
    SynchroniseBlockStream,
    SynchroniseExecutor,
    StopBlockStream,
    StopExecutor,
    DeleteState,
    DeleteStream,
    EnsureDeprovisioned,
}

/// What the machine asks for next.
#[derive(Clone, Copy, Debug, PartialEq, Eq, Structural)]
pub enum Step {
    /// Perform this effect and report whether it succeeded.
    Perform(Effect),
    /// The tick is over; this is the desired lifecycle state.
    Settle(LifecycleState),
}

/// The first step of a tick.
pub open spec fn first_step(s: LifecycleState, config_present: bool, enabled: bool) -> Step {
    match s {
        LifecycleState::Deleted => Step::Settle(LifecycleState::Deleted),
        LifecycleState::Deleting => Step::Perform(Effect::StopBlockStream),
        _ => if !config_present {
            Step::Settle(LifecycleState::Deleting)
        } else {
            match s {
                LifecycleState::Initializing => Step::Perform(Effect::EnsureProvisioned),
                LifecycleState::Running => if !enabled {
                    Step::Settle(LifecycleState::Stopping)
                } else {
                    Step::Perform(Effect::SynchroniseBlockStream)
                },
                LifecycleState::Stopping => Step::Perform(Effect::StopBlockStream),
                LifecycleState::Stopped => if enabled {
                    Step::Settle(LifecycleState::Running)
                } else {
                    Step::Settle(LifecycleState::Stopped)
                },
                _ => Step::Settle(LifecycleState::Repairing),
            }
        },
    }
}

/// The step that follows effect `done` in state `s`, given whether it succeeded.
pub open spec fn next_step(s: LifecycleState, done: Effect, ok: bool) -> Step {
    match s {
        LifecycleState::Initializing => if ok {
            Step::Settle(LifecycleState::Running)
        } else {
            Step::Settle(LifecycleState::Repairing)
        },
        LifecycleState::Running => if ok && done == Effect::SynchroniseBlockStream {
            Step::Perform(Effect::SynchroniseExecutor)
        } else {
            Step::Settle(LifecycleState::Running)
        },
        LifecycleState::Stopping => if !ok {
            Step::Settle(LifecycleState::Stopping)
        } else if done == Effect::StopBlockStream {
            Step::Perform(Effect::StopExecutor)
        } else {
            Step::Settle(LifecycleState::Stopped)
        },
        LifecycleState::Deleting => match done {
            Effect::StopBlockStream => Step::Perform(Effect::StopExecutor),
            Effect::StopExecutor => Step::Perform(Effect::DeleteState),
            Effect::DeleteState => if ok {
                Step::Perform(Effect::DeleteStream)
            } else {
                Step::Settle(LifecycleState::Deleting)
            },
            Effect::DeleteStream => if ok {
                Step::Perform(Effect::EnsureDeprovisioned)
            } else {
                Step::Settle(LifecycleState::Deleting)
            },
            _ => if ok {
                Step::Settle(LifecycleState::Deleted)
            } else {
                Step::Settle(LifecycleState::Deleting)
            },
        },
        _ => Step::Settle(s),
    }
}

/// A deleting indexer reaches `Deleted` only through a tick in which removing the
/// state record, the stream key and the data-layer resources all succeeded.
pub proof fn lemma_deleted_only_when_all_removed(enabled: bool, outcomes: Seq<bool>)
    requires
        tick(LifecycleState::Deleting, false, enabled, outcomes).1 == Some(LifecycleState::Deleted),
    ensures
        outcomes.len() >= 5,
        outcomes[2] && outcomes[3] && outcomes[4],
        tick(LifecycleState::Deleting, false, enabled, outcomes).0 == seq![
            Effect::StopBlockStream,
            Effect::StopExecutor,
            Effect::DeleteState,
            Effect::DeleteStream,
            Effect::EnsureDeprovisioned,
        ],
{
    reveal_with_fuel(run_steps, 6);
    let o = outcomes;
    if o.len() >= 5 {
        assert(o.drop_first().drop_first().drop_first().drop_first().drop_first().len() == o.len() - 5);
        assert(seq![Effect::StopBlockStream] + (seq![Effect::StopExecutor] + (seq![Effect::DeleteState] + (
            seq![Effect::DeleteStream] + (seq![Effect::EnsureDeprovisioned] + Seq::<Effect>::empty()))))
            =~= seq![
            Effect::StopBlockStream,
            Effect::StopExecutor,
            Effect::DeleteState,
            Effect::DeleteStream,
            Effect::EnsureDeprovisioned,
        ]);
    }
}

/// Runs a tick's steps from `step` on, feeding `outcomes` in order as the results of
/// the effects: the effects asked for, and the state settled on (`None` where the
/// outcomes ran out first).
pub open spec fn run_steps(s: LifecycleState, step: Step, outcomes: Seq<bool>) -> (Seq<Effect>, Option<LifecycleState>)
    decreases outcomes.len(),
{
    match step {
        Step::Settle(t) => (Seq::empty(), Some(t)),
        Step::Perform(e) => if outcomes.len() == 0 {
            (seq![e], None)
        } else {
            let rest = run_steps(s, next_step(s, e, outcomes[0]), outcomes.drop_first());
            (seq![e] + rest.0, rest.1)
        },
    }
}

/// A whole tick from state `s`.
pub open spec fn tick(s: LifecycleState, config_present: bool, enabled: bool, outcomes: Seq<bool>) -> (Seq<Effect>, Option<LifecycleState>) {
    run_steps(s, first_step(s, config_present, enabled), outcomes)
}

/// One reconciliation tick in progress.
pub struct LifecycleTick {
    /// The indexer's state as loaded at the start of the tick; updated as effects succeed.
    pub state: IndexerState,
    /// The registry version of the indexer's configuration, `None` once it is no longer registered.
    pub registry_version: Option<u64>,
}

impl LifecycleTick {
    pub fn new(state: IndexerState, registry_version: Option<u64>) -> (r: Self)
        ensures
            r.state == state,
            r.registry_version == registry_version,
    {
        LifecycleTick { state, registry_version }
    }

    /// The tick's first step.
    pub fn start(&self) -> (r: Step)
        ensures
            r == first_step(self.state.lifecycle_state, self.registry_version is Some, self.state.enabled),
    {
        let present = self.registry_version.is_some();
        match self.state.lifecycle_state {
            LifecycleState::Deleted => Step::Settle(LifecycleState::Deleted),
            LifecycleState::Deleting => Step::Perform(Effect::StopBlockStream),
            LifecycleState::Initializing => self.handle_initializing(present),
            LifecycleState::Running => self.handle_running(present),
            LifecycleState::Stopping => self.handle_stopping(present),
            LifecycleState::Stopped => self.handle_stopped(present),
            LifecycleState::Repairing => self.handle_repairing(present),
        }
    }

    fn handle_initializing(&self, present: bool) -> (r: Step)
        ensures
            r == (if present { Step::Perform(Effect::EnsureProvisioned) } else { Step::Settle(LifecycleState::Deleting) }),
    {
        if !present {
            return Step::Settle(LifecycleState::Deleting);
        }
        Step::Perform(Effect::EnsureProvisioned)
    }

    fn handle_running(&self, present: bool) -> (r: Step)
        ensures
            r == (if !present {
                Step::Settle(LifecycleState::Deleting)
            } else if !self.state.enabled {
                Step::Settle(LifecycleState::Stopping)
            } else {
                Step::Perform(Effect::SynchroniseBlockStream)
            }),
    {
        if !present {
            return Step::Settle(LifecycleState::Deleting);
        }
        if !self.state.enabled {
            return Step::Settle(LifecycleState::Stopping);
        }
        Step::Perform(Effect::SynchroniseBlockStream)
    }

    fn handle_stopping(&self, present: bool) -> (r: Step)
        ensures
            r == (if present { Step::Perform(Effect::StopBlockStream) } else { Step::Settle(LifecycleState::Deleting) }),
    {
        if !present {
            return Step::Settle(LifecycleState::Deleting);
        }
        Step::Perform(Effect::StopBlockStream)
    }

    fn handle_stopped(&self, present: bool) -> (r: Step)
        ensures
            r == (if !present {
                Step::Settle(LifecycleState::Deleting)
            } else if self.state.enabled {
                Step::Settle(LifecycleState::Running)
            } else {
                Step::Settle(LifecycleState::Stopped)
            }),
    {
        if !present {
            return Step::Settle(LifecycleState::Deleting);
        }
        if self.state.enabled {
            return Step::Settle(LifecycleState::Running);
        }
        Step::Settle(LifecycleState::Stopped)
    }

    fn handle_repairing(&self, present: bool) -> (r: Step)
        ensures
            r == (if present { Step::Settle(LifecycleState::Repairing) } else { Step::Settle(LifecycleState::Deleting) }),
    {
        if !present {
            return Step::Settle(LifecycleState::Deleting);
        }
        Step::Settle(LifecycleState::Repairing)
    }

    /// Takes the outcome of effect `done` and gives the next step. A successful block
    /// stream synchronisation records the current registry version in the state.
    pub fn after(&mut self, done: Effect, succeeded: bool) -> (r: Step)
        ensures
            r == next_step(old(self).state.lifecycle_state, done, succeeded),
            final(self).registry_version == old(self).registry_version,
            final(self).state.lifecycle_state == old(self).state.lifecycle_state,
            final(self).state.enabled == old(self).state.enabled,
            final(self).state.account_id == old(self).state.account_id,
            final(self).state.function_name == old(self).state.function_name,
            final(self).state.block_stream_synced_at == (
                if old(self).state.lifecycle_state == LifecycleState::Running && done == Effect::SynchroniseBlockStream
                    && succeeded && old(self).registry_version is Some {
                    old(self).registry_version
                } else {
                    old(self).state.block_stream_synced_at
                }),
    {
        match self.state.lifecycle_state {
            LifecycleState::Initializing => {
                if succeeded {
                    Step::Settle(LifecycleState::Running)
                } else {
                    Step::Settle(LifecycleState::Repairing)
                }
            },
            LifecycleState::Running => {
                if succeeded && done == Effect::SynchroniseBlockStream {
                    if self.registry_version.is_some() {
                        self.state.block_stream_synced_at = self.registry_version;
                    }
                    Step::Perform(Effect::SynchroniseExecutor)
                } else {
                    Step::Settle(LifecycleState::Running)
                }
            },
            LifecycleState::Stopping => {
                if !succeeded {
                    Step::Settle(LifecycleState::Stopping)
                } else if done == Effect::StopBlockStream {
                    Step::Perform(Effect::StopExecutor)
                } else {
                    Step::Settle(LifecycleState::Stopped)
                }
            },
            LifecycleState::Deleting => self.handle_deleting(done, succeeded),
            other => Step::Settle(other),
        }
    }

    fn handle_deleting(&self, done: Effect, succeeded: bool) -> (r: Step)
        ensures
            r == next_step(LifecycleState::Deleting, done, succeeded),
    {
        match done {
            Effect::StopBlockStream => Step::Perform(Effect::StopExecutor),
            Effect::StopExecutor => Step::Perform(Effect::DeleteState),
            Effect::DeleteState => {
                if succeeded {
                    Step::Perform(Effect::DeleteStream)
                } else {
                    Step::Settle(LifecycleState::Deleting)
                }
            },
            Effect::DeleteStream => {
                if succeeded {
                    Step::Perform(Effect::EnsureDeprovisioned)
                } else {
                    Step::Settle(LifecycleState::Deleting)
                }
            },
            _ => {
                if succeeded {
                    Step::Settle(LifecycleState::Deleted)
                } else {
                    Step::Settle(LifecycleState::Deleting)
                }
            },
        }
    }

    /// Ends the tick on `desired`: returns whether the state is to be persisted
    /// (false once the indexer is deleted, which ends its lifecycle), and records
    /// `desired` in the state otherwise.
    pub fn conclude(&mut self, desired: LifecycleState) -> (r: bool)
        ensures
            r == (desired != LifecycleState::Deleted),
            r ==> final(self).state.lifecycle_state == desired,
            !r ==> final(self).state.lifecycle_state == old(self).state.lifecycle_state,
            final(self).state.enabled == old(self).state.enabled,
            final(self).state.block_stream_synced_at == old(self).state.block_stream_synced_at,
            final(self).state.account_id == old(self).state.account_id,
            final(self).state.function_name == old(self).state.function_name,
            final(self).registry_version == old(self).registry_version,
    {
        if desired == LifecycleState::Deleted {
            return false;
        }
        self.state.lifecycle_state = desired;
        true
    }
}

/// From `Initializing`, with the indexer registered and provisioning succeeding,
/// one tick settles on `Running`.
pub proof fn lemma_initializing_reaches_running(enabled: bool)
    ensures
        tick(LifecycleState::Initializing, true, enabled, seq![true])
            == (seq![Effect::EnsureProvisioned], Some(LifecycleState::Running)),
{
    reveal_with_fuel(run_steps, 2);
    assert(seq![true].drop_first() =~= Seq::<bool>::empty());
    assert(seq![Effect::EnsureProvisioned] + Seq::<Effect>::empty() =~= seq![Effect::EnsureProvisioned]);
}

/// A `Running` indexer that is switched off settles on `Stopping` within one tick,
/// and, with both stops succeeding, on `Stopped` in the next.
pub proof fn lemma_disabled_indexer_stops()
    ensures
        tick(LifecycleState::Running, true, false, Seq::empty()) == (Seq::<Effect>::empty(), Some(LifecycleState::Stopping)),
        tick(LifecycleState::Stopping, true, false, seq![true, true])
            == (seq![Effect::StopBlockStream, Effect::StopExecutor], Some(LifecycleState::Stopped)),
{
    reveal_with_fuel(run_steps, 3);
    let o = seq![true, true];
    assert(o.drop_first() =~= seq![true]);
    assert(o.drop_first().drop_first() =~= Seq::<bool>::empty());
    assert(seq![Effect::StopBlockStream] + (seq![Effect::StopExecutor] + Seq::<Effect>::empty())
        =~= seq![Effect::StopBlockStream, Effect::StopExecutor]);
}

/// Once the registry entry is gone, every live state settles on `Deleting`; from
/// there a tick stops the block stream and the executor (whatever their outcome),
/// and, with the state record, the stream key and the data-layer resources removed
/// successfully, settles on `Deleted`.
pub proof fn lemma_unregistered_indexer_is_deleted(s: LifecycleState, enabled: bool, stop_outcomes: Seq<bool>)
    requires
        s != LifecycleState::Deleting,
        s != LifecycleState::Deleted,
        stop_outcomes.len() == 2,
    ensures
        tick(s, false, enabled, Seq::empty()) == (Seq::<Effect>::empty(), Some(LifecycleState::Deleting)),
        tick(LifecycleState::Deleting, false, enabled, stop_outcomes + seq![true, true, true]) == (
            seq![
                Effect::StopBlockStream,
                Effect::StopExecutor,
                Effect::DeleteState,
                Effect::DeleteStream,
                Effect::EnsureDeprovisioned,
            ],
            Some(LifecycleState::Deleted),
        ),
{
    reveal_with_fuel(run_steps, 6);
    let o = stop_outcomes + seq![true, true, true];
    assert(o.drop_first() =~= seq![stop_outcomes[1], true, true, true]);
    assert(o.drop_first().drop_first() =~= seq![true, true, true]);
    assert(o.drop_first().drop_first().drop_first() =~= seq![true, true]);
    assert(o.drop_first().drop_first().drop_first().drop_first() =~= seq![true]);
    assert(o.drop_first().drop_first().drop_first().drop_first().drop_first() =~= Seq::<bool>::empty());
    assert(seq![Effect::StopBlockStream] + (seq![Effect::StopExecutor] + (seq![Effect::DeleteState] + (
        seq![Effect::DeleteStream] + (seq![Effect::EnsureDeprovisioned] + Seq::<Effect>::empty()))))
        =~= seq![
        Effect::StopBlockStream,
        Effect::StopExecutor,
        Effect::DeleteState,
        Effect::DeleteStream,
        Effect::EnsureDeprovisioned,
    ]);
}

} // verus!
