//! Host-agent orchestration between pure lifecycle policy and outward effects.
//!
//! Distributed lease acquisition intentionally stays outside this module. A
//! caller acquires one fenced lifecycle grant, then calls [`reconcile_once`] with
//! that fencing token. This keeps the lease authorities behind one
//! interchangeable seam while making effect ordering independently testable.
//!
//! One reconciliation is a run of a small machine. A [`Stage`] names the one call
//! the run is waiting for, a [`Reply`] carries what that call returned, and
//! [`advance`] turns the two into the next stage. [`reconcile_once`] makes the
//! calls; the laws at the end of the module speak of every sequence of replies.

use crate::process_lifecycle::{
    decide, ActivitySnapshot, LifecycleAction, LifecycleEvent, LifecyclePolicy, LifecycleState,
    SuspendStrategy,
};
use crate::process_lifecycle_record::{
    may_replace, validate_record_update, LifecycleCheckpoint, LifecycleRecord,
    PersistedLifecycleState, PersistedSuspendStrategy,
};
use crate::text::same_text;
use vstd::prelude::*;

verus! {

#[derive(Clone, Copy, Debug, PartialEq, Eq, Structural)]
pub enum ProductQuiesceOutcome {
    Drained,
    DemandReturned,
}

/// Product-specific runtime boundary. Implementations own their local opaque
/// quiesce handle (Erlang refs/PIDs must never cross the process boundary).
pub trait ProductLifecycleControl {
    fn observe(&mut self) -> Result<ActivitySnapshot, String>;

    fn quiesce(&mut self) -> Result<ProductQuiesceOutcome, String>;

    fn cancel_quiesce(&mut self) -> Result<(), String>;

    fn ensure_ready(&mut self) -> Result<(), String>;
}

/// Durable compare-and-set record boundary. Implementations must make replace
/// atomic and reject a changed expected revision/fence rather than overwriting it.
pub trait LifecycleRecordStore {
    fn load(&mut self, workload_id: &str) -> Result<LifecycleRecord, String>;

    fn replace(&mut self, expected: &LifecycleRecord, next: &LifecycleRecord) -> Result<
        (),
        String,
    >;
}

/// Linux/process effects. The shared Linux adapter provides cgroup and CRIU
/// primitives; product/infra wiring decides how checkpoint artifacts become
/// durable and content-addressed.
pub trait LifecycleEffects {
    fn freeze(&mut self) -> Result<(), String>;

    fn thaw(&mut self) -> Result<(), String>;

    fn checkpoint_and_terminate(&mut self) -> Result<LifecycleCheckpoint, String>;

    fn restore(&mut self, checkpoint: &LifecycleCheckpoint) -> Result<(), String>;
}

#[derive(Debug, PartialEq, Eq)]
pub struct ControllerScope {
    pub workload_id: String,
    pub node: String,
    pub placement_epoch: u64,
}

impl Clone for ControllerScope {
    fn clone(&self) -> (copy: Self)
        ensures
            copy == *self,
    {
        ControllerScope {
            workload_id: self.workload_id.clone(),
            node: self.node.clone(),
            placement_epoch: self.placement_epoch,
        }
    }
}

#[derive(Clone, Copy, Debug, PartialEq, Eq, Structural)]
pub enum ReconcileOutcome {
    NoChange,
    Suspended,
    Resumed,
    DemandCancelledSuspend,
    /// A quiesce that an earlier controller left behind was cancelled.
    RecoveredQuiesce,
}

#[derive(Clone, Debug, PartialEq, Eq)]
pub enum ReconcileError {
    Record(String),
    Product(String),
    Effect(String),
    InvalidRecord,
    StalePlacement,
    StaleFence,
    InvalidTransition,
    RecoveryRequired(PersistedLifecycleState),
}

/// What a run does once the store has accepted a record.
#[derive(Debug, PartialEq, Eq)]
pub enum Following {
    Drain,
    Freeze,
    Checkpoint,
    Thaw,
    Restore(LifecycleCheckpoint),
    Finish(Result<ReconcileOutcome, ReconcileError>),
}

/// Where a run stands: the call it is waiting for, or its result.
///
/// `current` is always the record that the store holds.
#[derive(Debug, PartialEq, Eq)]
pub enum Stage {
    /// Waiting for the store to load the workload's record.
    Loading,
    /// Waiting for the product to observe its activity.
    Observing { current: LifecycleRecord },
    /// Waiting for the product to cancel its quiesce. The run ends with `ending` once the
    /// workload is recorded as running again.
    Cancelling { current: LifecycleRecord, ending: Result<ReconcileOutcome, ReconcileError> },
    /// Waiting for the store to replace `current` by `next`.
    Persisting { current: LifecycleRecord, next: LifecycleRecord, following: Following },
    /// Waiting for the product to close admissions and drain.
    Draining { current: LifecycleRecord },
    /// Waiting for the process to be frozen.
    Freezing { current: LifecycleRecord },
    /// Waiting for the process to be checkpointed and terminated.
    Checkpointing { current: LifecycleRecord },
    /// Waiting for the process to be thawed.
    Thawing { current: LifecycleRecord },
    /// Waiting for the process to be restored from `checkpoint`.
    Restoring { current: LifecycleRecord, checkpoint: LifecycleCheckpoint },
    /// Waiting for the woken product to be ready.
    Readying { current: LifecycleRecord },
    Finished(Result<ReconcileOutcome, ReconcileError>),
}

/// What a call returned.
#[derive(Debug, PartialEq, Eq)]
pub enum Reply {
    Loaded(Result<LifecycleRecord, String>),
    Observed(Result<ActivitySnapshot, String>),
    Quiesced(Result<ProductQuiesceOutcome, String>),
    Checkpointed(Result<LifecycleCheckpoint, String>),
    Done(Result<(), String>),
}

impl Reply {
    /// The call succeeded and had nothing to hand back.
    pub open spec fn acknowledges(self) -> bool {
        self matches Reply::Done(Ok(_))
    }

    /// The call failed.
    pub open spec fn failed(self) -> bool {
        match self {
            Reply::Loaded(result) => result is Err,
            Reply::Observed(result) => result is Err,
            Reply::Quiesced(result) => result is Err,
            Reply::Checkpointed(result) => result is Err,
            Reply::Done(result) => result is Err,
        }
    }
}

pub open spec fn strategy_of(strategy: PersistedSuspendStrategy) -> SuspendStrategy {
    match strategy {
        PersistedSuspendStrategy::Freeze => SuspendStrategy::Freeze,
        PersistedSuspendStrategy::Hibernate => SuspendStrategy::Hibernate,
    }
}

/// The states that record the intent of a process effect.
pub open spec fn transitional(state: PersistedLifecycleState) -> bool {
    ||| state == PersistedLifecycleState::Freezing
    ||| state == PersistedLifecycleState::Checkpointing
    ||| state == PersistedLifecycleState::Thawing
    ||| state == PersistedLifecycleState::Restoring
}

/// Why this controller may not act on a loaded record, if it may not. The policy has to have
/// the record's strategy where it decides on one, for a running workload; a workload that is
/// being quiesced or is suspended goes back to running by what its record says.
pub open spec fn refusal(
    scope: ControllerScope,
    fencing_token: u64,
    policy: LifecyclePolicy,
    record: LifecycleRecord,
) -> Option<ReconcileError> {
    if !record.valid() {
        Some(ReconcileError::InvalidRecord)
    } else if record.assigned_node@ != scope.node@ || record.placement_epoch
        != scope.placement_epoch {
        Some(ReconcileError::StalePlacement)
    } else if fencing_token < record.fencing_token {
        Some(ReconcileError::StaleFence)
    } else if transitional(record.state) {
        Some(ReconcileError::RecoveryRequired(record.state))
    } else if record.state == PersistedLifecycleState::Running && strategy_of(record.strategy)
        != policy.strategy {
        Some(ReconcileError::InvalidRecord)
    } else {
        None
    }
}

/// The record that follows `current` under `fencing_token`. The revision stops at its
/// largest value, where no record can follow any more.
pub open spec fn successor(
    current: LifecycleRecord,
    fencing_token: u64,
    state: PersistedLifecycleState,
    checkpoint: Option<LifecycleCheckpoint>,
) -> LifecycleRecord {
    LifecycleRecord {
        workload_id: current.workload_id,
        assigned_node: current.assigned_node,
        placement_epoch: current.placement_epoch,
        fencing_token,
        revision: if current.revision == u64::MAX {
            u64::MAX
        } else {
            (current.revision + 1) as u64
        },
        state,
        strategy: current.strategy,
        checkpoint,
    }
}

/// A record is handed to the store only where it may replace the current one.
pub open spec fn persisting(
    current: LifecycleRecord,
    next: LifecycleRecord,
    following: Following,
) -> Stage {
    if may_replace(current, next) {
        Stage::Persisting { current, next, following }
    } else {
        Stage::Finished(Err(ReconcileError::InvalidRecord))
    }
}

/// What one observation of a stable workload leads to.
pub open spec fn observed(
    fencing_token: u64,
    policy: LifecyclePolicy,
    current: LifecycleRecord,
    activity: ActivitySnapshot,
) -> Stage {
    match current.state {
        PersistedLifecycleState::Running => if activity.idle_since(policy.minimum_idle_ms) {
            persisting(
                current,
                successor(current, fencing_token, PersistedLifecycleState::Quiescing, None),
                Following::Drain,
            )
        } else {
            Stage::Finished(Ok(ReconcileOutcome::NoChange))
        },
        PersistedLifecycleState::Quiescing => Stage::Cancelling {
            current,
            ending: Ok(
                if activity.demanded() {
                    ReconcileOutcome::DemandCancelledSuspend
                } else {
                    ReconcileOutcome::RecoveredQuiesce
                },
            ),
        },
        PersistedLifecycleState::Frozen => if activity.demanded() {
            persisting(
                current,
                successor(current, fencing_token, PersistedLifecycleState::Thawing, None),
                Following::Thaw,
            )
        } else {
            Stage::Finished(Ok(ReconcileOutcome::NoChange))
        },
        PersistedLifecycleState::Hibernated => if !activity.demanded() {
            Stage::Finished(Ok(ReconcileOutcome::NoChange))
        } else if let Some(checkpoint) = current.checkpoint {
            persisting(
                current,
                successor(
                    current,
                    fencing_token,
                    PersistedLifecycleState::Restoring,
                    Some(checkpoint),
                ),
                Following::Restore(checkpoint),
            )
        } else {
            Stage::Finished(Err(ReconcileError::InvalidRecord))
        },
        PersistedLifecycleState::Freezing
        | PersistedLifecycleState::Checkpointing
        | PersistedLifecycleState::Thawing
        | PersistedLifecycleState::Restoring => Stage::Finished(
            Err(ReconcileError::InvalidTransition),
        ),
    }
}

/// What an acknowledged quiesce leads to.
pub open spec fn quiesced(
    fencing_token: u64,
    policy: LifecyclePolicy,
    current: LifecycleRecord,
    outcome: ProductQuiesceOutcome,
) -> Stage {
    match (outcome, policy.strategy) {
        (ProductQuiesceOutcome::DemandReturned, _) => Stage::Cancelling {
            current,
            ending: Ok(ReconcileOutcome::DemandCancelledSuspend),
        },
        (ProductQuiesceOutcome::Drained, SuspendStrategy::Freeze) => persisting(
            current,
            successor(current, fencing_token, PersistedLifecycleState::Freezing, None),
            Following::Freeze,
        ),
        (ProductQuiesceOutcome::Drained, SuspendStrategy::Hibernate) => persisting(
            current,
            successor(current, fencing_token, PersistedLifecycleState::Checkpointing, None),
            Following::Checkpoint,
        ),
    }
}

/// Where a run stands once the store holds `current`.
pub open spec fn persisted(current: LifecycleRecord, following: Following) -> Stage {
    match following {
        Following::Drain => Stage::Draining { current },
        Following::Freeze => Stage::Freezing { current },
        Following::Checkpoint => Stage::Checkpointing { current },
        Following::Thaw => Stage::Thawing { current },
        Following::Restore(checkpoint) => Stage::Restoring { current, checkpoint },
        Following::Finish(ending) => Stage::Finished(ending),
    }
}

/// One step of a run. A failed call ends it with that call's message, but a failed drain
/// first cancels the quiesce and records the workload as running; a reply to another call
/// than the stage's own ends it as an invalid transition.
pub open spec fn step(
    scope: ControllerScope,
    fencing_token: u64,
    policy: LifecyclePolicy,
    stage: Stage,
    reply: Reply,
) -> Stage {
    match (stage, reply) {
        (Stage::Loading, Reply::Loaded(Ok(record))) => match refusal(
            scope,
            fencing_token,
            policy,
            record,
        ) {
            Some(error) => Stage::Finished(Err(error)),
            None => Stage::Observing { current: record },
        },
        (Stage::Loading, Reply::Loaded(Err(message))) => Stage::Finished(
            Err(ReconcileError::Record(message)),
        ),
        (Stage::Observing { current }, Reply::Observed(Ok(activity))) => observed(
            fencing_token,
            policy,
            current,
            activity,
        ),
        (Stage::Observing { .. }, Reply::Observed(Err(message))) => Stage::Finished(
            Err(ReconcileError::Product(message)),
        ),
        (Stage::Cancelling { current, ending }, Reply::Done(Ok(_))) => persisting(
            current,
            successor(current, fencing_token, PersistedLifecycleState::Running, None),
            Following::Finish(ending),
        ),
        (Stage::Cancelling { .. }, Reply::Done(Err(message))) => Stage::Finished(
            Err(ReconcileError::Product(message)),
        ),
        (Stage::Persisting { next, following, .. }, Reply::Done(Ok(_))) => persisted(
            next,
            following,
        ),
        (Stage::Persisting { .. }, Reply::Done(Err(message))) => Stage::Finished(
            Err(ReconcileError::Record(message)),
        ),
        (Stage::Draining { current }, Reply::Quiesced(Ok(outcome))) => quiesced(
            fencing_token,
            policy,
            current,
            outcome,
        ),
        (Stage::Draining { current }, Reply::Quiesced(Err(message))) => Stage::Cancelling {
            current,
            ending: Err(ReconcileError::Product(message)),
        },
        (Stage::Freezing { current }, Reply::Done(Ok(_))) => persisting(
            current,
            successor(current, fencing_token, PersistedLifecycleState::Frozen, None),
            Following::Finish(Ok(ReconcileOutcome::Suspended)),
        ),
        (Stage::Freezing { .. }, Reply::Done(Err(message))) => Stage::Finished(
            Err(ReconcileError::Effect(message)),
        ),
        (Stage::Checkpointing { current }, Reply::Checkpointed(Ok(checkpoint))) => persisting(
            current,
            successor(
                current,
                fencing_token,
                PersistedLifecycleState::Hibernated,
                Some(checkpoint),
            ),
            Following::Finish(Ok(ReconcileOutcome::Suspended)),
        ),
        (Stage::Checkpointing { .. }, Reply::Checkpointed(Err(message))) => Stage::Finished(
            Err(ReconcileError::Effect(message)),
        ),
        (Stage::Thawing { current }, Reply::Done(Ok(_))) => Stage::Readying { current },
        (Stage::Thawing { .. }, Reply::Done(Err(message))) => Stage::Finished(
            Err(ReconcileError::Effect(message)),
        ),
        (Stage::Restoring { current, .. }, Reply::Done(Ok(_))) => Stage::Readying { current },
        (Stage::Restoring { .. }, Reply::Done(Err(message))) => Stage::Finished(
            Err(ReconcileError::Effect(message)),
        ),
        (Stage::Readying { current }, Reply::Done(Ok(_))) => persisting(
            current,
            successor(current, fencing_token, PersistedLifecycleState::Running, None),
            Following::Finish(Ok(ReconcileOutcome::Resumed)),
        ),
        (Stage::Readying { .. }, Reply::Done(Err(message))) => Stage::Finished(
            Err(ReconcileError::Product(message)),
        ),
        (Stage::Finished(result), _) => Stage::Finished(result),
        _ => Stage::Finished(Err(ReconcileError::InvalidTransition)),
    }
}

/// The stage that a run reaches after `replies`.
pub open spec fn run(
    scope: ControllerScope,
    fencing_token: u64,
    policy: LifecyclePolicy,
    replies: Seq<Reply>,
) -> Stage
    decreases replies.len(),
{
    if replies.len() == 0 {
        Stage::Loading
    } else {
        step(
            scope,
            fencing_token,
            policy,
            run(scope, fencing_token, policy, replies.drop_last()),
            replies.last(),
        )
    }
}

/// The stage in which the reply with index `i` was asked for.
pub open spec fn stage_before(
    scope: ControllerScope,
    fencing_token: u64,
    policy: LifecyclePolicy,
    replies: Seq<Reply>,
    i: int,
) -> Stage {
    run(scope, fencing_token, policy, replies.take(i))
}

/// An upper bound on the calls that a run in `stage` still makes.
pub open spec fn calls_left(stage: Stage) -> nat {
    match stage {
        Stage::Loading => 7,
        Stage::Observing { .. } => 6,
        Stage::Persisting { following, .. } => match following {
            Following::Drain => 5,
            Following::Freeze | Following::Checkpoint => 3,
            Following::Thaw | Following::Restore(_) => 4,
            Following::Finish(_) => 1,
        },
        Stage::Draining { .. } => 4,
        Stage::Thawing { .. } | Stage::Restoring { .. } => 3,
        Stage::Cancelling { .. }
        | Stage::Freezing { .. }
        | Stage::Checkpointing { .. }
        | Stage::Readying { .. } => 2,
        Stage::Finished(_) => 0,
    }
}

fn to_strategy(strategy: PersistedSuspendStrategy) -> (policy_strategy: SuspendStrategy)
    ensures
        policy_strategy == strategy_of(strategy),
{
    match strategy {
        PersistedSuspendStrategy::Freeze => SuspendStrategy::Freeze,
        PersistedSuspendStrategy::Hibernate => SuspendStrategy::Hibernate,
    }
}

fn to_policy_state(record: &LifecycleRecord) -> (state: LifecycleState)
    ensures
        state == (match record.state {
            PersistedLifecycleState::Running => LifecycleState::Running,
            PersistedLifecycleState::Quiescing => LifecycleState::Quiescing(
                strategy_of(record.strategy),
            ),
            PersistedLifecycleState::Freezing => LifecycleState::Freezing,
            PersistedLifecycleState::Frozen => LifecycleState::Frozen,
            PersistedLifecycleState::Checkpointing => LifecycleState::Checkpointing,
            PersistedLifecycleState::Hibernated => LifecycleState::Hibernated,
            PersistedLifecycleState::Thawing => LifecycleState::Resuming(SuspendStrategy::Freeze),
            PersistedLifecycleState::Restoring => LifecycleState::Resuming(
                SuspendStrategy::Hibernate,
            ),
        }),
{
    match record.state {
        PersistedLifecycleState::Running => LifecycleState::Running,
        PersistedLifecycleState::Quiescing => LifecycleState::Quiescing(
            to_strategy(record.strategy),
        ),
        PersistedLifecycleState::Freezing => LifecycleState::Freezing,
        PersistedLifecycleState::Frozen => LifecycleState::Frozen,
        PersistedLifecycleState::Checkpointing => LifecycleState::Checkpointing,
        PersistedLifecycleState::Hibernated => LifecycleState::Hibernated,
        PersistedLifecycleState::Thawing => LifecycleState::Resuming(SuspendStrategy::Freeze),
        PersistedLifecycleState::Restoring => LifecycleState::Resuming(SuspendStrategy::Hibernate),
    }
}

/// Whether this controller may act on `record` at all.
fn validate_authority(
    scope: &ControllerScope,
    fencing_token: u64,
    policy: LifecyclePolicy,
    record: &LifecycleRecord,
) -> (outcome: Result<(), ReconcileError>)
    ensures
        outcome == (match refusal(*scope, fencing_token, policy, *record) {
            Some(error) => Err::<(), ReconcileError>(error),
            None => Ok(()),
        }),
{
    if record.validate().is_err() {
        return Err(ReconcileError::InvalidRecord);
    }
    if !same_text(record.assigned_node.as_str(), scope.node.as_str()) || record.placement_epoch
        != scope.placement_epoch {
        return Err(ReconcileError::StalePlacement);
    }
    if fencing_token < record.fencing_token {
        return Err(ReconcileError::StaleFence);
    }
    match record.state {
        PersistedLifecycleState::Freezing
        | PersistedLifecycleState::Checkpointing
        | PersistedLifecycleState::Thawing
        | PersistedLifecycleState::Restoring => {
            return Err(ReconcileError::RecoveryRequired(record.state));
        },
        PersistedLifecycleState::Running
        | PersistedLifecycleState::Quiescing
        | PersistedLifecycleState::Frozen
        | PersistedLifecycleState::Hibernated => {},
    }
    if record.state == PersistedLifecycleState::Running && to_strategy(record.strategy)
        != policy.strategy {
        return Err(ReconcileError::InvalidRecord);
    }
    Ok(())
}

fn next_record(
    current: &LifecycleRecord,
    fencing_token: u64,
    state: PersistedLifecycleState,
    checkpoint: Option<LifecycleCheckpoint>,
) -> (next: LifecycleRecord)
    ensures
        next == successor(*current, fencing_token, state, checkpoint),
{
    LifecycleRecord {
        workload_id: current.workload_id.clone(),
        assigned_node: current.assigned_node.clone(),
        placement_epoch: current.placement_epoch,
        fencing_token,
        revision: current.revision.saturating_add(1),
        state,
        strategy: current.strategy,
        checkpoint,
    }
}

fn persist(current: LifecycleRecord, next: LifecycleRecord, following: Following) -> (stage: Stage)
    ensures
        stage == persisting(current, next, following),
{
    if validate_record_update(&current, &next).is_err() {
        return Stage::Finished(Err(ReconcileError::InvalidRecord));
    }
    Stage::Persisting { current, next, following }
}

/// Persist the successor of `current` in `state`.
fn persist_next(
    current: LifecycleRecord,
    fencing_token: u64,
    state: PersistedLifecycleState,
    checkpoint: Option<LifecycleCheckpoint>,
    following: Following,
) -> (stage: Stage)
    ensures
        stage == persisting(
            current,
            successor(current, fencing_token, state, checkpoint),
            following,
        ),
{
    let next = next_record(&current, fencing_token, state, checkpoint);
    persist(current, next, following)
}

fn after_observation(
    fencing_token: u64,
    policy: LifecyclePolicy,
    current: LifecycleRecord,
    activity: ActivitySnapshot,
) -> (stage: Stage)
    ensures
        stage == observed(fencing_token, policy, current, activity),
{
    let state = to_policy_state(&current);
    let decision = match decide(state, policy, LifecycleEvent::Observe(activity)) {
        Ok(decision) => decision,
        Err(_) => return Stage::Finished(Err(ReconcileError::InvalidTransition)),
    };
    match decision.action {
        LifecycleAction::Stay => {
            if current.state == PersistedLifecycleState::Quiescing {
                return Stage::Cancelling {
                    current,
                    ending: Ok(ReconcileOutcome::RecoveredQuiesce),
                };
            }
            Stage::Finished(Ok(ReconcileOutcome::NoChange))
        },
        LifecycleAction::BeginQuiesce => persist_next(
            current,
            fencing_token,
            PersistedLifecycleState::Quiescing,
            None,
            Following::Drain,
        ),
        LifecycleAction::CancelQuiesce => Stage::Cancelling {
            current,
            ending: Ok(ReconcileOutcome::DemandCancelledSuspend),
        },
        LifecycleAction::Thaw => persist_next(
            current,
            fencing_token,
            PersistedLifecycleState::Thawing,
            None,
            Following::Thaw,
        ),
        LifecycleAction::Restore => restore_hibernated(fencing_token, current),
        LifecycleAction::Freeze | LifecycleAction::CheckpointAndTerminate => Stage::Finished(
            Err(ReconcileError::InvalidTransition),
        ),
    }
}

fn restore_hibernated(fencing_token: u64, current: LifecycleRecord) -> (stage: Stage)
    ensures
        stage == (match current.checkpoint {
            Some(checkpoint) => persisting(
                current,
                successor(
                    current,
                    fencing_token,
                    PersistedLifecycleState::Restoring,
                    Some(checkpoint),
                ),
                Following::Restore(checkpoint),
            ),
            None => Stage::Finished(Err(ReconcileError::InvalidRecord)),
        }),
{
    let (kept, handed) = match &current.checkpoint {
        Some(checkpoint) => (checkpoint.clone(), checkpoint.clone()),
        None => return Stage::Finished(Err(ReconcileError::InvalidRecord)),
    };
    persist_next(
        current,
        fencing_token,
        PersistedLifecycleState::Restoring,
        Some(kept),
        Following::Restore(handed),
    )
}

fn after_quiesce(
    fencing_token: u64,
    policy: LifecyclePolicy,
    current: LifecycleRecord,
    outcome: ProductQuiesceOutcome,
) -> (stage: Stage)
    ensures
        stage == quiesced(fencing_token, policy, current, outcome),
{
    match outcome {
        ProductQuiesceOutcome::DemandReturned => {
            return Stage::Cancelling {
                current,
                ending: Ok(ReconcileOutcome::DemandCancelledSuspend),
            };
        },
        ProductQuiesceOutcome::Drained => {},
    }
    let decision = match decide(
        LifecycleState::Quiescing(policy.strategy),
        policy,
        LifecycleEvent::QuiesceSucceeded,
    ) {
        Ok(decision) => decision,
        Err(_) => return Stage::Finished(Err(ReconcileError::InvalidTransition)),
    };
    match decision.action {
        LifecycleAction::Freeze => persist_next(
            current,
            fencing_token,
            PersistedLifecycleState::Freezing,
            None,
            Following::Freeze,
        ),
        LifecycleAction::CheckpointAndTerminate => persist_next(
            current,
            fencing_token,
            PersistedLifecycleState::Checkpointing,
            None,
            Following::Checkpoint,
        ),
        _ => Stage::Finished(Err(ReconcileError::InvalidTransition)),
    }
}

fn after_persist(current: LifecycleRecord, following: Following) -> (stage: Stage)
    ensures
        stage == persisted(current, following),
{
    match following {
        Following::Drain => Stage::Draining { current },
        Following::Freeze => Stage::Freezing { current },
        Following::Checkpoint => Stage::Checkpointing { current },
        Following::Thaw => Stage::Thawing { current },
        Following::Restore(checkpoint) => Stage::Restoring { current, checkpoint },
        Following::Finish(ending) => Stage::Finished(ending),
    }
}

/// The next stage of a run, given what the call that `stage` waits for returned.
pub fn advance(
    scope: &ControllerScope,
    fencing_token: u64,
    policy: LifecyclePolicy,
    stage: Stage,
    reply: Reply,
) -> (next: Stage)
    ensures
        next == step(*scope, fencing_token, policy, stage, reply),
{
    match (stage, reply) {
        (Stage::Loading, Reply::Loaded(Ok(record))) => match validate_authority(
            scope,
            fencing_token,
            policy,
            &record,
        ) {
            Ok(()) => Stage::Observing { current: record },
            Err(error) => Stage::Finished(Err(error)),
        },
        (Stage::Observing { current }, Reply::Observed(Ok(activity))) => after_observation(
            fencing_token,
            policy,
            current,
            activity,
        ),
        (Stage::Cancelling { current, ending }, Reply::Done(Ok(()))) => persist_next(
            current,
            fencing_token,
            PersistedLifecycleState::Running,
            None,
            Following::Finish(ending),
        ),
        (Stage::Persisting { next, following, .. }, Reply::Done(Ok(()))) => after_persist(
            next,
            following,
        ),
        (Stage::Draining { current }, Reply::Quiesced(Ok(outcome))) => after_quiesce(
            fencing_token,
            policy,
            current,
            outcome,
        ),
        (Stage::Draining { current }, Reply::Quiesced(Err(message))) => Stage::Cancelling {
            current,
            ending: Err(ReconcileError::Product(message)),
        },
        (Stage::Freezing { current }, Reply::Done(Ok(()))) => persist_next(
            current,
            fencing_token,
            PersistedLifecycleState::Frozen,
            None,
            Following::Finish(Ok(ReconcileOutcome::Suspended)),
        ),
        (Stage::Checkpointing { current }, Reply::Checkpointed(Ok(checkpoint))) => persist_next(
            current,
            fencing_token,
            PersistedLifecycleState::Hibernated,
            Some(checkpoint),
            Following::Finish(Ok(ReconcileOutcome::Suspended)),
        ),
        (Stage::Thawing { current }, Reply::Done(Ok(()))) => Stage::Readying { current },
        (Stage::Restoring { current, .. }, Reply::Done(Ok(()))) => Stage::Readying { current },
        (Stage::Readying { current }, Reply::Done(Ok(()))) => persist_next(
            current,
            fencing_token,
            PersistedLifecycleState::Running,
            None,
            Following::Finish(Ok(ReconcileOutcome::Resumed)),
        ),
        (Stage::Loading, Reply::Loaded(Err(message)))
        | (Stage::Persisting { .. }, Reply::Done(Err(message))) => Stage::Finished(
            Err(ReconcileError::Record(message)),
        ),
        (Stage::Observing { .. }, Reply::Observed(Err(message)))
        | (Stage::Cancelling { .. }, Reply::Done(Err(message)))
        | (Stage::Readying { .. }, Reply::Done(Err(message))) => Stage::Finished(
            Err(ReconcileError::Product(message)),
        ),
        (Stage::Checkpointing { .. }, Reply::Checkpointed(Err(message)))
        | (Stage::Freezing { .. }, Reply::Done(Err(message)))
        | (Stage::Thawing { .. }, Reply::Done(Err(message)))
        | (Stage::Restoring { .. }, Reply::Done(Err(message))) => Stage::Finished(
            Err(ReconcileError::Effect(message)),
        ),
        (Stage::Finished(result), _) => Stage::Finished(result),
        _ => Stage::Finished(Err(ReconcileError::InvalidTransition)),
    }
}

/// Make the one call that `stage` waits for. A finished run makes none.
///
/// The boundaries that are not called stay as they were.
pub fn perform<S, P, E>(
    scope: &ControllerScope,
    stage: &Stage,
    store: &mut S,
    product: &mut P,
    effects: &mut E,
) -> (reply: Reply) where
    S: LifecycleRecordStore,
    P: ProductLifecycleControl,
    E: LifecycleEffects,

    ensures
        !(stage is Loading || stage is Persisting) ==> *final(store) == *old(store),
        !(stage is Observing || stage is Cancelling || stage is Draining || stage is Readying)
            ==> *final(product) == *old(product),
        !(stage is Freezing || stage is Checkpointing || stage is Thawing || stage is Restoring)
            ==> *final(effects) == *old(effects),
        match *stage {
            Stage::Loading => exists|
                called: &mut S,
                workload_id: &str,
                result: Result<LifecycleRecord, String>,
            |
                *called == *old(store) && *final(called) == *final(store) && workload_id@
                    == scope.workload_id@ && #[trigger] call_ensures(
                    S::load,
                    (called, workload_id),
                    result,
                ) && reply == Reply::Loaded(result),
            Stage::Persisting { current, next, .. } => exists|
                called: &mut S,
                result: Result<(), String>,
            |
                *called == *old(store) && *final(called) == *final(store)
                    && #[trigger] call_ensures(S::replace, (called, &current, &next), result)
                    && reply == Reply::Done(result),
            Stage::Observing { .. } => exists|
                called: &mut P,
                result: Result<ActivitySnapshot, String>,
            |
                *called == *old(product) && *final(called) == *final(product)
                    && #[trigger] call_ensures(P::observe, (called,), result) && reply
                    == Reply::Observed(result),
            Stage::Draining { .. } => exists|
                called: &mut P,
                result: Result<ProductQuiesceOutcome, String>,
            |
                *called == *old(product) && *final(called) == *final(product)
                    && #[trigger] call_ensures(P::quiesce, (called,), result) && reply
                    == Reply::Quiesced(result),
            Stage::Cancelling { .. } => exists|called: &mut P, result: Result<(), String>|
                *called == *old(product) && *final(called) == *final(product)
                    && #[trigger] call_ensures(P::cancel_quiesce, (called,), result) && reply
                    == Reply::Done(result),
            Stage::Readying { .. } => exists|called: &mut P, result: Result<(), String>|
                *called == *old(product) && *final(called) == *final(product)
                    && #[trigger] call_ensures(P::ensure_ready, (called,), result) && reply
                    == Reply::Done(result),
            Stage::Freezing { .. } => exists|called: &mut E, result: Result<(), String>|
                *called == *old(effects) && *final(called) == *final(effects)
                    && #[trigger] call_ensures(E::freeze, (called,), result) && reply
                    == Reply::Done(result),
            Stage::Checkpointing { .. } => exists|
                called: &mut E,
                result: Result<LifecycleCheckpoint, String>,
            |
                *called == *old(effects) && *final(called) == *final(effects)
                    && #[trigger] call_ensures(E::checkpoint_and_terminate, (called,), result)
                    && reply == Reply::Checkpointed(result),
            Stage::Thawing { .. } => exists|called: &mut E, result: Result<(), String>|
                *called == *old(effects) && *final(called) == *final(effects)
                    && #[trigger] call_ensures(E::thaw, (called,), result) && reply
                    == Reply::Done(result),
            Stage::Restoring { checkpoint, .. } => exists|
                called: &mut E,
                result: Result<(), String>,
            |
                *called == *old(effects) && *final(called) == *final(effects)
                    && #[trigger] call_ensures(E::restore, (called, &checkpoint), result)
                    && reply == Reply::Done(result),
            Stage::Finished(_) => reply == Reply::Done(Ok(())),
        },
{
    match stage {
        Stage::Loading => Reply::Loaded(store.load(scope.workload_id.as_str())),
        Stage::Persisting { current, next, .. } => Reply::Done(store.replace(current, next)),
        Stage::Observing { .. } => Reply::Observed(product.observe()),
        Stage::Draining { .. } => Reply::Quiesced(product.quiesce()),
        Stage::Cancelling { .. } => Reply::Done(product.cancel_quiesce()),
        Stage::Readying { .. } => Reply::Done(product.ensure_ready()),
        Stage::Freezing { .. } => Reply::Done(effects.freeze()),
        Stage::Checkpointing { .. } => Reply::Checkpointed(effects.checkpoint_and_terminate()),
        Stage::Thawing { .. } => Reply::Done(effects.thaw()),
        Stage::Restoring { checkpoint, .. } => Reply::Done(effects.restore(checkpoint)),
        Stage::Finished(_) => Reply::Done(Ok(())),
    }
}

/// The three boundaries at one moment of a run, between two calls.
pub struct Moment<S, P, E> {
    pub store: S,
    pub product: P,
    pub effects: E,
}

/// A run of `replies` passes through one moment more than it makes calls.
pub open spec fn spans<S, P, E>(moments: Seq<Moment<S, P, E>>, replies: Seq<Reply>) -> bool {
    moments.len() == replies.len() + 1
}

/// Reconcile one stable lifecycle state while holding the workload's fenced
/// distributed lease. Transitional process-effect states are deliberately not
/// replayed here: `freezing`, `checkpointing`, `thawing`, and `restoring` require
/// crash recovery against observed cgroup/process/checkpoint reality.
///
/// The result is that of a run: there are replies that lead from the first stage to
/// it, each of them the reply of the one call that its stage waits for, and between
/// those calls none of the boundaries is touched.
pub fn reconcile_once<S, P, E>(
    scope: &ControllerScope,
    fencing_token: u64,
    policy: LifecyclePolicy,
    store: &mut S,
    product: &mut P,
    effects: &mut E,
) -> (result: Result<ReconcileOutcome, ReconcileError>) where
    S: LifecycleRecordStore,
    P: ProductLifecycleControl,
    E: LifecycleEffects,

    ensures
        exists|moments: Seq<Moment<S, P, E>>, replies: Seq<Reply>|
            {
                &&& #[trigger] spans(moments, replies)
                &&& run(*scope, fencing_token, policy, replies) == Stage::Finished(result)
                &&& moments[0] == (Moment {
                    store: *old(store),
                    product: *old(product),
                    effects: *old(effects),
                })
                &&& moments.last() == (Moment {
                    store: *final(store),
                    product: *final(product),
                    effects: *final(effects),
                })
                &&& forall|i: int|
                    0 <= i < replies.len() ==> !(#[trigger] stage_before(
                        *scope,
                        fencing_token,
                        policy,
                        replies,
                        i,
                    ) is Finished) && exists|s: &mut S, p: &mut P, e: &mut E|
                        {
                            &&& *s == moments[i].store && *final(s) == moments[i + 1].store
                            &&& *p == moments[i].product && *final(p) == moments[i + 1].product
                            &&& *e == moments[i].effects && *final(e) == moments[i + 1].effects
                            &&& #[trigger] call_ensures(
                                perform::<S, P, E>,
                                (
                                    scope,
                                    &stage_before(*scope, fencing_token, policy, replies, i),
                                    s,
                                    p,
                                    e,
                                ),
                                replies[i],
                            )
                        }
            },
{
    let mut stage = Stage::Loading;
    let ghost mut moments: Seq<Moment<S, P, E>> = seq![
        Moment { store: *store, product: *product, effects: *effects },
    ];
    let ghost mut replies: Seq<Reply> = Seq::empty();
    loop
        invariant
            spans(moments, replies),
            run(*scope, fencing_token, policy, replies) == stage,
            moments[0] == (Moment {
                store: *old(store),
                product: *old(product),
                effects: *old(effects),
            }),
            moments.last() == (Moment { store: *store, product: *product, effects: *effects }),
            forall|i: int|
                0 <= i < replies.len() ==> !(#[trigger] stage_before(
                    *scope,
                    fencing_token,
                    policy,
                    replies,
                    i,
                ) is Finished) && exists|s: &mut S, p: &mut P, e: &mut E|
                    {
                        &&& *s == moments[i].store && *final(s) == moments[i + 1].store
                        &&& *p == moments[i].product && *final(p) == moments[i + 1].product
                        &&& *e == moments[i].effects && *final(e) == moments[i + 1].effects
                        &&& #[trigger] call_ensures(
                            perform::<S, P, E>,
                            (
                                scope,
                                &stage_before(*scope, fencing_token, policy, replies, i),
                                s,
                                p,
                                e,
                            ),
                            replies[i],
                        )
                    },
        decreases calls_left(stage),
    {
        match stage {
            Stage::Finished(result) => {
                return result;
            },
            waiting => {
                let ghost passed = moments;
                let ghost answered = replies;
                let reply = perform(scope, &waiting, store, product, effects);
                proof {
                    replies = answered.push(reply);
                    moments = passed.push(
                        Moment { store: *store, product: *product, effects: *effects },
                    );
                    assert(replies.drop_last() == answered);
                    assert forall|i: int| 0 <= i < replies.len() implies !(
                    #[trigger] stage_before(*scope, fencing_token, policy, replies, i) is Finished)
                        && exists|s: &mut S, p: &mut P, e: &mut E|
                        {
                            &&& *s == moments[i].store && *final(s) == moments[i + 1].store
                            &&& *p == moments[i].product && *final(p) == moments[i + 1].product
                            &&& *e == moments[i].effects && *final(e) == moments[i + 1].effects
                            &&& #[trigger] call_ensures(
                                perform::<S, P, E>,
                                (
                                    scope,
                                    &stage_before(*scope, fencing_token, policy, replies, i),
                                    s,
                                    p,
                                    e,
                                ),
                                replies[i],
                            )
                        } by {
                        assert(replies.take(i) == answered.take(i));
                        if i < answered.len() {
                            let earlier = stage_before(*scope, fencing_token, policy, answered, i);
                            assert(replies[i] == answered[i]);
                            assert(moments[i] == passed[i]);
                            assert(moments[i + 1] == passed[i + 1]);
                        } else {
                            assert(answered.take(i) == answered);
                            assert(moments[i] == passed.last());
                        }
                    }
                }
                stage = advance(scope, fencing_token, policy, waiting, reply);
            },
        }
    }
}

/// A record that this controller may rely on: valid, in its placement, and not written under
/// a newer fence.
pub open spec fn held(
    scope: ControllerScope,
    fencing_token: u64,
    record: LifecycleRecord,
) -> bool {
    &&& record.valid()
    &&& record.assigned_node@ == scope.node@
    &&& record.placement_epoch == scope.placement_epoch
    &&& record.fencing_token <= fencing_token
}

/// What is true of a stage that a run reaches.
pub open spec fn reachable(
    scope: ControllerScope,
    fencing_token: u64,
    policy: LifecyclePolicy,
    stage: Stage,
) -> bool {
    match stage {
        Stage::Loading | Stage::Finished(_) => true,
        Stage::Observing { current } => held(scope, fencing_token, current)
            && !transitional(current.state) && (current.state == PersistedLifecycleState::Running
            ==> strategy_of(current.strategy) == policy.strategy),
        Stage::Cancelling { current, ending } => held(scope, fencing_token, current)
            && current.state == PersistedLifecycleState::Quiescing && (ending == Ok::<
            ReconcileOutcome,
            ReconcileError,
        >(ReconcileOutcome::DemandCancelledSuspend) || ending == Ok::<
            ReconcileOutcome,
            ReconcileError,
        >(ReconcileOutcome::RecoveredQuiesce) || ending matches Err(ReconcileError::Product(_))),
        Stage::Persisting { current, next, following } => {
            &&& held(scope, fencing_token, current)
            &&& held(scope, fencing_token, next)
            &&& may_replace(current, next)
            &&& next == successor(current, fencing_token, next.state, next.checkpoint)
            &&& match following {
                Following::Drain => next.state == PersistedLifecycleState::Quiescing
                    && strategy_of(next.strategy) == policy.strategy,
                Following::Freeze => next.state == PersistedLifecycleState::Freezing
                    && next.strategy == PersistedSuspendStrategy::Freeze,
                Following::Checkpoint => next.state == PersistedLifecycleState::Checkpointing
                    && next.strategy == PersistedSuspendStrategy::Hibernate,
                Following::Thaw => next.state == PersistedLifecycleState::Thawing,
                Following::Restore(checkpoint) => next.state == PersistedLifecycleState::Restoring
                    && next.checkpoint == Some(checkpoint),
                Following::Finish(Ok(ReconcileOutcome::Suspended)) => next.state
                    == PersistedLifecycleState::Frozen || next.state
                    == PersistedLifecycleState::Hibernated,
                Following::Finish(ending) => next.state == PersistedLifecycleState::Running
                    && ending != Ok::<ReconcileOutcome, ReconcileError>(
                    ReconcileOutcome::NoChange,
                ),
            }
        },
        Stage::Draining { current } => held(scope, fencing_token, current)
            && current.fencing_token == fencing_token && current.state
            == PersistedLifecycleState::Quiescing && strategy_of(current.strategy)
            == policy.strategy,
        Stage::Freezing { current } => held(scope, fencing_token, current)
            && current.fencing_token == fencing_token && current.state
            == PersistedLifecycleState::Freezing && current.strategy
            == PersistedSuspendStrategy::Freeze,
        Stage::Checkpointing { current } => held(scope, fencing_token, current)
            && current.fencing_token == fencing_token && current.state
            == PersistedLifecycleState::Checkpointing && current.strategy
            == PersistedSuspendStrategy::Hibernate,
        Stage::Thawing { current } => held(scope, fencing_token, current)
            && current.fencing_token == fencing_token && current.state
            == PersistedLifecycleState::Thawing,
        Stage::Restoring { current, checkpoint } => held(scope, fencing_token, current)
            && current.fencing_token == fencing_token && current.state
            == PersistedLifecycleState::Restoring && current.checkpoint == Some(checkpoint),
        Stage::Readying { current } => held(scope, fencing_token, current)
            && current.fencing_token == fencing_token && (current.state
            == PersistedLifecycleState::Thawing || current.state
            == PersistedLifecycleState::Restoring),
    }
}

/// Every stage of every run is reachable in the above sense.
pub proof fn law_runs_stay_reachable(
    scope: ControllerScope,
    fencing_token: u64,
    policy: LifecyclePolicy,
    replies: Seq<Reply>,
)
    ensures
        reachable(scope, fencing_token, policy, run(scope, fencing_token, policy, replies)),
    decreases replies.len(),
{
    if replies.len() > 0 {
        law_runs_stay_reachable(scope, fencing_token, policy, replies.drop_last());
    }
}

/// Every record that a run hands to the store keeps the workload, is placed where
/// the controller is, carries the controller's fence and the next revision, and may
/// replace the record that it is compared with.
pub proof fn law_writes_are_fenced(
    scope: ControllerScope,
    fencing_token: u64,
    policy: LifecyclePolicy,
    replies: Seq<Reply>,
)
    ensures
        run(scope, fencing_token, policy, replies) matches Stage::Persisting { current, next, .. }
            ==> {
            &&& may_replace(current, next)
            &&& next.workload_id == current.workload_id
            &&& next.authorizes(scope.node@, scope.placement_epoch, fencing_token)
            &&& next.revision == current.revision + 1
            &&& next.strategy == current.strategy
        },
{
    law_runs_stay_reachable(scope, fencing_token, policy, replies);
}

/// A process effect is asked for only right after the store has accepted the record
/// of its intent, and that record authorizes this controller.
pub proof fn law_effects_follow_their_intent(
    scope: ControllerScope,
    fencing_token: u64,
    policy: LifecyclePolicy,
    replies: Seq<Reply>,
)
    ensures
        ({
            let stage = run(scope, fencing_token, policy, replies);
            let (intent, state) = match stage {
                Stage::Freezing { current } => (Some(current), PersistedLifecycleState::Freezing),
                Stage::Checkpointing { current } => (
                    Some(current),
                    PersistedLifecycleState::Checkpointing,
                ),
                Stage::Thawing { current } => (Some(current), PersistedLifecycleState::Thawing),
                Stage::Restoring { current, .. } => (
                    Some(current),
                    PersistedLifecycleState::Restoring,
                ),
                _ => (None, PersistedLifecycleState::Running),
            };
            intent matches Some(record) ==> {
                &&& replies.len() > 0
                &&& run(scope, fencing_token, policy, replies.drop_last()) matches Stage::Persisting {
                    next,
                    ..
                } && next == record
                &&& replies.last().acknowledges()
                &&& record.state == state
                &&& record.authorizes(scope.node@, scope.placement_epoch, fencing_token)
                &&& stage matches Stage::Restoring { checkpoint, .. } ==> record.checkpoint == Some(
                    checkpoint,
                )
            }
        }),
{
    law_runs_stay_reachable(scope, fencing_token, policy, replies);
    if replies.len() > 0 {
        law_runs_stay_reachable(scope, fencing_token, policy, replies.drop_last());
    }
}

/// A process is frozen or checkpointed only as its record's strategy says.
pub proof fn law_suspension_keeps_to_the_recorded_strategy(
    scope: ControllerScope,
    fencing_token: u64,
    policy: LifecyclePolicy,
    replies: Seq<Reply>,
)
    ensures
        run(scope, fencing_token, policy, replies) matches Stage::Freezing { current }
            ==> current.strategy == PersistedSuspendStrategy::Freeze,
        run(scope, fencing_token, policy, replies) matches Stage::Checkpointing { current }
            ==> current.strategy == PersistedSuspendStrategy::Hibernate,
{
    law_runs_stay_reachable(scope, fencing_token, policy, replies);
}

/// A workload is recorded as suspended only right after its effect has succeeded, and
/// as hibernated only with the checkpoint that this effect returned.
pub proof fn law_suspension_is_never_fabricated(
    scope: ControllerScope,
    fencing_token: u64,
    policy: LifecyclePolicy,
    replies: Seq<Reply>,
)
    ensures
        run(scope, fencing_token, policy, replies) matches Stage::Persisting { current, next, .. }
            ==> {
            let before = run(scope, fencing_token, policy, replies.drop_last());
            &&& next.state == PersistedLifecycleState::Frozen ==> before == Stage::Freezing {
                current,
            } && replies.last().acknowledges()
            &&& next.state == PersistedLifecycleState::Hibernated ==> before
                == Stage::Checkpointing { current } && replies.last() == Reply::Checkpointed(
                Ok(next.checkpoint->0),
            )
        },
{
    if replies.len() > 0 {
        law_runs_stay_reachable(scope, fencing_token, policy, replies.drop_last());
    }
}

/// A workload is recorded as running again only right after the product was found
/// ready, when it was woken, or has cancelled its quiesce, when it was not suspended.
pub proof fn law_running_is_never_fabricated(
    scope: ControllerScope,
    fencing_token: u64,
    policy: LifecyclePolicy,
    replies: Seq<Reply>,
)
    ensures
        run(scope, fencing_token, policy, replies) matches Stage::Persisting { current, next, .. }
            ==> next.state == PersistedLifecycleState::Running ==> {
            let before = run(scope, fencing_token, policy, replies.drop_last());
            &&& replies.last().acknowledges()
            &&& current.state == PersistedLifecycleState::Thawing || current.state
                == PersistedLifecycleState::Restoring || current.state
                == PersistedLifecycleState::Quiescing
            &&& current.state == PersistedLifecycleState::Quiescing ==> before is Cancelling
            &&& current.state != PersistedLifecycleState::Quiescing ==> before == Stage::Readying {
                current,
            }
        },
{
    if replies.len() > 0 {
        law_runs_stay_reachable(scope, fencing_token, policy, replies.drop_last());
    }
}

/// The product is asked for readiness only right after its thaw or restore has
/// succeeded.
pub proof fn law_readiness_follows_wake(
    scope: ControllerScope,
    fencing_token: u64,
    policy: LifecyclePolicy,
    replies: Seq<Reply>,
)
    ensures
        run(scope, fencing_token, policy, replies) matches Stage::Readying { current } ==> {
            let before = run(scope, fencing_token, policy, replies.drop_last());
            &&& replies.last().acknowledges()
            &&& match before {
                Stage::Thawing { current: woken } => woken == current,
                Stage::Restoring { current: woken, .. } => woken == current,
                _ => false,
            }
        },
{
}

/// A change is claimed only once the store holds the record that says so.
pub proof fn law_outcomes_are_durable(
    scope: ControllerScope,
    fencing_token: u64,
    policy: LifecyclePolicy,
    replies: Seq<Reply>,
)
    requires
        replies.len() > 0,
        !(run(scope, fencing_token, policy, replies.drop_last()) is Finished),
    ensures
        run(scope, fencing_token, policy, replies) matches Stage::Finished(Ok(outcome)) ==> outcome
            != ReconcileOutcome::NoChange ==> {
            &&& replies.last().acknowledges()
            &&& run(scope, fencing_token, policy, replies.drop_last()) matches Stage::Persisting {
                next,
                ..
            } && (if outcome == ReconcileOutcome::Suspended {
                next.state == PersistedLifecycleState::Frozen || next.state
                    == PersistedLifecycleState::Hibernated
            } else {
                next.state == PersistedLifecycleState::Running
            })
        },
{
    law_runs_stay_reachable(scope, fencing_token, policy, replies.drop_last());
}

/// A failed call ends its run at once, and nothing is written after it; only a failed drain
/// has its quiesce cancelled first.
pub proof fn law_failure_ends_the_run(
    scope: ControllerScope,
    fencing_token: u64,
    policy: LifecyclePolicy,
    stage: Stage,
    reply: Reply,
)
    requires
        !(stage is Finished),
        reply.failed(),
        !(stage is Draining && reply is Quiesced),
    ensures
        step(scope, fencing_token, policy, stage, reply) matches Stage::Finished(Err(_)),
{
}

/// A drain that fails leaves the workload running: the quiesce is cancelled, a running
/// record is written under the held fence with the next revision, no process effect is asked
/// for, and the run ends with the message of the failed drain. A revision that cannot
/// advance any more is left out, since no record can follow it.
pub proof fn law_failed_drain_leaves_the_workload_running(
    scope: ControllerScope,
    fencing_token: u64,
    policy: LifecyclePolicy,
    replies: Seq<Reply>,
    message: String,
)
    requires
        run(scope, fencing_token, policy, replies) matches Stage::Draining { current }
            && current.revision < u64::MAX,
    ensures
        ({
            let quiescing = run(scope, fencing_token, policy, replies)->Draining_current;
            let ending = Err::<ReconcileOutcome, ReconcileError>(ReconcileError::Product(message));
            let running = successor(
                quiescing,
                fencing_token,
                PersistedLifecycleState::Running,
                None,
            );
            let failed = replies.push(Reply::Quiesced(Err(message)));
            let cancelled = failed.push(Reply::Done(Ok(())));
            let written = cancelled.push(Reply::Done(Ok(())));
            &&& run(scope, fencing_token, policy, failed) == (Stage::Cancelling {
                current: quiescing,
                ending,
            })
            &&& run(scope, fencing_token, policy, cancelled) == (Stage::Persisting {
                current: quiescing,
                next: running,
                following: Following::Finish(ending),
            })
            &&& running.revision == quiescing.revision + 1
            &&& running.authorizes(scope.node@, scope.placement_epoch, fencing_token)
            &&& run(scope, fencing_token, policy, written) == Stage::Finished(ending)
        }),
{
    let done = Reply::Done(Ok(()));
    let failed = replies.push(Reply::Quiesced(Err(message)));
    law_runs_stay_reachable(scope, fencing_token, policy, replies);
    lemma_run_push(scope, fencing_token, policy, replies, Reply::Quiesced(Err(message)));
    lemma_run_push(scope, fencing_token, policy, failed, done);
    lemma_run_push(scope, fencing_token, policy, failed.push(done), done);
}

/// A record that the controller may not act on ends the run at once: neither the
/// product nor the process is touched, and nothing is written.
pub proof fn law_refused_record_is_left_alone(
    scope: ControllerScope,
    fencing_token: u64,
    policy: LifecyclePolicy,
    record: LifecycleRecord,
    later: Seq<Reply>,
)
    requires
        refusal(scope, fencing_token, policy, record) is Some,
    ensures
        run(scope, fencing_token, policy, seq![Reply::Loaded(Ok(record))] + later)
            == Stage::Finished(Err(refusal(scope, fencing_token, policy, record)->0)),
    decreases later.len(),
{
    let first = Reply::Loaded(Ok(record));
    let replies = seq![first] + later;
    if later.len() == 0 {
        assert(replies =~= Seq::empty().push(first));
        lemma_run_push(scope, fencing_token, policy, Seq::empty(), first);
        assert(run(scope, fencing_token, policy, Seq::empty()) == Stage::Loading);
    } else {
        law_refused_record_is_left_alone(scope, fencing_token, policy, record, later.drop_last());
        assert(replies =~= (seq![first] + later.drop_last()).push(later.last()));
        lemma_run_push(
            scope,
            fencing_token,
            policy,
            seq![first] + later.drop_last(),
            later.last(),
        );
    }
}

/// Every run ends: no run waits for more calls than the first stage allows.
pub proof fn law_runs_are_bounded(
    scope: ControllerScope,
    fencing_token: u64,
    policy: LifecyclePolicy,
    replies: Seq<Reply>,
)
    ensures
        ({
            let stage = run(scope, fencing_token, policy, replies);
            stage is Finished || replies.len() + calls_left(stage) <= calls_left(Stage::Loading)
        }),
        replies.len() >= calls_left(Stage::Loading) ==> run(
            scope,
            fencing_token,
            policy,
            replies,
        ) is Finished,
    decreases replies.len(),
{
    if replies.len() > 0 {
        law_runs_are_bounded(scope, fencing_token, policy, replies.drop_last());
    }
}

proof fn lemma_run_push(
    scope: ControllerScope,
    fencing_token: u64,
    policy: LifecyclePolicy,
    replies: Seq<Reply>,
    reply: Reply,
)
    ensures
        run(scope, fencing_token, policy, replies.push(reply)) == step(
            scope,
            fencing_token,
            policy,
            run(scope, fencing_token, policy, replies),
            reply,
        ),
{
    assert(replies.push(reply).drop_last() =~= replies);
}

/// Where every call succeeds and the drain completes, a running workload that has
/// been idle for the whole grace is suspended.
pub proof fn law_idle_workload_is_suspended(
    scope: ControllerScope,
    fencing_token: u64,
    policy: LifecyclePolicy,
    record: LifecycleRecord,
    activity: ActivitySnapshot,
    checkpoint: LifecycleCheckpoint,
)
    requires
        refusal(scope, fencing_token, policy, record) is None,
        record.state == PersistedLifecycleState::Running,
        activity.idle_since(policy.minimum_idle_ms),
        record.revision <= u64::MAX - 3,
        checkpoint.identified(),
    ensures
        run(
            scope,
            fencing_token,
            policy,
            Seq::empty().push(Reply::Loaded(Ok(record))).push(Reply::Observed(Ok(activity))).push(
                Reply::Done(Ok(())),
            ).push(Reply::Quiesced(Ok(ProductQuiesceOutcome::Drained))).push(
                Reply::Done(Ok(())),
            ).push(
                match policy.strategy {
                    SuspendStrategy::Freeze => Reply::Done(Ok(())),
                    SuspendStrategy::Hibernate => Reply::Checkpointed(Ok(checkpoint)),
                },
            ).push(Reply::Done(Ok(()))),
        ) == Stage::Finished(Ok(ReconcileOutcome::Suspended)),
{
    let effect = match policy.strategy {
        SuspendStrategy::Freeze => Reply::Done(Ok(())),
        SuspendStrategy::Hibernate => Reply::Checkpointed(Ok(checkpoint)),
    };
    let loaded = Seq::empty().push(Reply::Loaded(Ok(record)));
    lemma_run_push(scope, fencing_token, policy, Seq::empty(), Reply::Loaded(Ok(record)));
    let watched = loaded.push(Reply::Observed(Ok(activity)));
    lemma_run_push(scope, fencing_token, policy, loaded, Reply::Observed(Ok(activity)));
    let quiescing = watched.push(Reply::Done(Ok(())));
    lemma_run_push(scope, fencing_token, policy, watched, Reply::Done(Ok(())));
    let drained = quiescing.push(Reply::Quiesced(Ok(ProductQuiesceOutcome::Drained)));
    lemma_run_push(
        scope,
        fencing_token,
        policy,
        quiescing,
        Reply::Quiesced(Ok(ProductQuiesceOutcome::Drained)),
    );
    let intended = drained.push(Reply::Done(Ok(())));
    lemma_run_push(scope, fencing_token, policy, drained, Reply::Done(Ok(())));
    let stopped = intended.push(effect);
    lemma_run_push(scope, fencing_token, policy, intended, effect);
    lemma_run_push(scope, fencing_token, policy, stopped, Reply::Done(Ok(())));
}

/// Where every call succeeds, demand brings a suspended workload back to running, whatever
/// strategy the policy has now.
pub proof fn law_demanded_workload_resumes(
    scope: ControllerScope,
    fencing_token: u64,
    policy: LifecyclePolicy,
    record: LifecycleRecord,
    activity: ActivitySnapshot,
)
    requires
        refusal(scope, fencing_token, policy, record) is None,
        record.state == PersistedLifecycleState::Frozen || record.state
            == PersistedLifecycleState::Hibernated,
        activity.demanded(),
        record.revision <= u64::MAX - 2,
    ensures
        run(
            scope,
            fencing_token,
            policy,
            Seq::empty().push(Reply::Loaded(Ok(record))).push(Reply::Observed(Ok(activity))).push(
                Reply::Done(Ok(())),
            ).push(Reply::Done(Ok(()))).push(Reply::Done(Ok(()))).push(Reply::Done(Ok(()))),
        ) == Stage::Finished(Ok(ReconcileOutcome::Resumed)),
{
    let done = Reply::Done(Ok(()));
    let loaded = Seq::empty().push(Reply::Loaded(Ok(record)));
    lemma_run_push(scope, fencing_token, policy, Seq::empty(), Reply::Loaded(Ok(record)));
    let watched = loaded.push(Reply::Observed(Ok(activity)));
    lemma_run_push(scope, fencing_token, policy, loaded, Reply::Observed(Ok(activity)));
    lemma_run_push(scope, fencing_token, policy, watched, done);
    lemma_run_push(scope, fencing_token, policy, watched.push(done), done);
    lemma_run_push(scope, fencing_token, policy, watched.push(done).push(done), done);
    lemma_run_push(scope, fencing_token, policy, watched.push(done).push(done).push(done), done);
}

/// A run begins by loading, and every reply takes it one step further.
pub proof fn law_runs_go_step_by_step(
    scope: ControllerScope,
    fencing_token: u64,
    policy: LifecyclePolicy,
    replies: Seq<Reply>,
    reply: Reply,
)
    ensures
        run(scope, fencing_token, policy, Seq::empty()) == Stage::Loading,
        run(scope, fencing_token, policy, replies.push(reply)) == step(
            scope,
            fencing_token,
            policy,
            run(scope, fencing_token, policy, replies),
            reply,
        ),
{
    lemma_run_push(scope, fencing_token, policy, replies, reply);
}

/// A controller acts on a record exactly where the record is valid, placed with the
/// controller, not fenced by a newer controller, in a stable state, and, while it runs, of
/// the strategy that the policy has.
pub proof fn law_what_a_controller_acts_on(
    scope: ControllerScope,
    fencing_token: u64,
    policy: LifecyclePolicy,
    record: LifecycleRecord,
    message: String,
)
    ensures
        ({
            let placed = record.assigned_node@ == scope.node@ && record.placement_epoch
                == scope.placement_epoch;
            let fenced = record.fencing_token <= fencing_token;
            let stable = record.state == PersistedLifecycleState::Running || record.state
                == PersistedLifecycleState::Quiescing || record.state
                == PersistedLifecycleState::Frozen || record.state
                == PersistedLifecycleState::Hibernated;
            let suited = record.state != PersistedLifecycleState::Running || (match record.strategy {
                PersistedSuspendStrategy::Freeze => policy.strategy == SuspendStrategy::Freeze,
                PersistedSuspendStrategy::Hibernate => policy.strategy
                    == SuspendStrategy::Hibernate,
            });
            let next = step(
                scope,
                fencing_token,
                policy,
                Stage::Loading,
                Reply::Loaded(Ok(record)),
            );
            let ends = |error: ReconcileError| next == Stage::Finished(Err(error));
            &&& record.valid() && placed && fenced && stable && suited ==> next == (
            Stage::Observing { current: record })
            &&& !record.valid() ==> ends(ReconcileError::InvalidRecord)
            &&& record.valid() && !placed ==> ends(ReconcileError::StalePlacement)
            &&& record.valid() && placed && !fenced ==> ends(ReconcileError::StaleFence)
            &&& record.valid() && placed && fenced && !stable ==> ends(
                ReconcileError::RecoveryRequired(record.state),
            )
            &&& record.valid() && placed && fenced && stable && !suited ==> ends(
                ReconcileError::InvalidRecord,
            )
            &&& step(
                scope,
                fencing_token,
                policy,
                Stage::Loading,
                Reply::Loaded(Err(message)),
            ) == Stage::Finished(Err(ReconcileError::Record(message)))
        }),
{
}

/// The record that takes the place of another: of the same workload, in the same placement,
/// of the same strategy, with the next revision.
pub open spec fn succeeds(
    next: LifecycleRecord,
    record: LifecycleRecord,
    fencing_token: u64,
    state: PersistedLifecycleState,
    checkpoint: Option<LifecycleCheckpoint>,
) -> bool {
    &&& next.workload_id == record.workload_id
    &&& next.assigned_node == record.assigned_node
    &&& next.placement_epoch == record.placement_epoch
    &&& next.strategy == record.strategy
    &&& next.revision == record.revision + 1
    &&& next.fencing_token == fencing_token
    &&& next.state == state
    &&& next.checkpoint == checkpoint
}

/// The stage asks the store to replace `record` by its successor.
pub open spec fn asks_to_write(
    stage: Stage,
    record: LifecycleRecord,
    fencing_token: u64,
    state: PersistedLifecycleState,
    checkpoint: Option<LifecycleCheckpoint>,
    after: Following,
) -> bool {
    stage matches Stage::Persisting { current, next, following } && current == record && following
        == after && succeeds(next, record, fencing_token, state, checkpoint)
}

/// What an observation of a stable workload makes a run do. Without work queued or in flight a
/// suspended workload is left alone, a running one is quiesced once it has rested for the
/// whole grace, and a leftover quiesce is cancelled; with work, a suspended workload is woken
/// by its own way, a quiesce is cancelled, and a running workload is left alone.
pub proof fn law_what_an_observation_does(
    scope: ControllerScope,
    fencing_token: u64,
    policy: LifecyclePolicy,
    current: LifecycleRecord,
    activity: ActivitySnapshot,
)
    requires
        current.valid(),
        current.fencing_token <= fencing_token,
        current.revision < u64::MAX,
    ensures
        ({
            let next = step(
                scope,
                fencing_token,
                policy,
                Stage::Observing { current },
                Reply::Observed(Ok(activity)),
            );
            let working = activity.queue_depth > 0 || activity.in_flight > 0;
            let rested = activity.idle_for_ms >= policy.minimum_idle_ms;
            let unchanged = next == Stage::Finished(Ok(ReconcileOutcome::NoChange));
            &&& current.state == PersistedLifecycleState::Frozen && !working ==> unchanged
            &&& current.state == PersistedLifecycleState::Hibernated && !working ==> unchanged
            &&& current.state == PersistedLifecycleState::Running && (working || !rested)
                ==> unchanged
            &&& current.state == PersistedLifecycleState::Running && !working && rested
                ==> asks_to_write(
                next,
                current,
                fencing_token,
                PersistedLifecycleState::Quiescing,
                None,
                Following::Drain,
            )
            &&& current.state == PersistedLifecycleState::Frozen && working ==> asks_to_write(
                next,
                current,
                fencing_token,
                PersistedLifecycleState::Thawing,
                None,
                Following::Thaw,
            )
            &&& current.state == PersistedLifecycleState::Hibernated && working ==> asks_to_write(
                next,
                current,
                fencing_token,
                PersistedLifecycleState::Restoring,
                current.checkpoint,
                Following::Restore(current.checkpoint->0),
            )
            &&& current.state == PersistedLifecycleState::Quiescing && working ==> next == (
            Stage::Cancelling {
                current,
                ending: Ok(ReconcileOutcome::DemandCancelledSuspend),
            })
            &&& current.state == PersistedLifecycleState::Quiescing && !working ==> next == (
            Stage::Cancelling { current, ending: Ok(ReconcileOutcome::RecoveredQuiesce) })
        }),
{
}

/// What the replies to the later calls make a run do, where every call succeeds. A drained
/// workload goes on to the effect of the policy's strategy, and each effect is recorded once
/// it is done.
pub proof fn law_what_success_does(
    scope: ControllerScope,
    fencing_token: u64,
    policy: LifecyclePolicy,
    current: LifecycleRecord,
    checkpoint: LifecycleCheckpoint,
    ending: Result<ReconcileOutcome, ReconcileError>,
)
    requires
        current.valid(),
        current.fencing_token <= fencing_token,
        current.revision < u64::MAX,
        checkpoint.artifact_ref@.len() > 0 && checkpoint.digest@.len() > 0
            && checkpoint.format@.len() > 0,
    ensures
        ({
            let after = |stage: Stage, reply: Reply|
                step(scope, fencing_token, policy, stage, reply);
            let done = Reply::Done(Ok(()));
            let writes = |
                stage: Stage,
                state: PersistedLifecycleState,
                kept: Option<LifecycleCheckpoint>,
                following: Following,
            | asks_to_write(stage, current, fencing_token, state, kept, following);
            &&& writes(
                after(Stage::Cancelling { current, ending }, done),
                PersistedLifecycleState::Running,
                None,
                Following::Finish(ending),
            )
            &&& after(
                Stage::Draining { current },
                Reply::Quiesced(Ok(ProductQuiesceOutcome::DemandReturned)),
            ) == (Stage::Cancelling {
                current,
                ending: Ok(ReconcileOutcome::DemandCancelledSuspend),
            })
            &&& policy.strategy == SuspendStrategy::Freeze ==> writes(
                after(
                    Stage::Draining { current },
                    Reply::Quiesced(Ok(ProductQuiesceOutcome::Drained)),
                ),
                PersistedLifecycleState::Freezing,
                None,
                Following::Freeze,
            )
            &&& policy.strategy == SuspendStrategy::Hibernate ==> writes(
                after(
                    Stage::Draining { current },
                    Reply::Quiesced(Ok(ProductQuiesceOutcome::Drained)),
                ),
                PersistedLifecycleState::Checkpointing,
                None,
                Following::Checkpoint,
            )
            &&& writes(
                after(Stage::Freezing { current }, done),
                PersistedLifecycleState::Frozen,
                None,
                Following::Finish(Ok(ReconcileOutcome::Suspended)),
            )
            &&& writes(
                after(Stage::Checkpointing { current }, Reply::Checkpointed(Ok(checkpoint))),
                PersistedLifecycleState::Hibernated,
                Some(checkpoint),
                Following::Finish(Ok(ReconcileOutcome::Suspended)),
            )
            &&& after(Stage::Thawing { current }, done) == (Stage::Readying { current })
            &&& after(Stage::Restoring { current, checkpoint }, done) == (Stage::Readying {
                current,
            })
            &&& writes(
                after(Stage::Readying { current }, done),
                PersistedLifecycleState::Running,
                None,
                Following::Finish(Ok(ReconcileOutcome::Resumed)),
            )
        }),
{
}

/// What a run does once the store has accepted a record: exactly what was to follow, with
/// the accepted record as the current one.
pub proof fn law_what_an_accepted_write_does(
    scope: ControllerScope,
    fencing_token: u64,
    policy: LifecyclePolicy,
    current: LifecycleRecord,
    next: LifecycleRecord,
    checkpoint: LifecycleCheckpoint,
    ending: Result<ReconcileOutcome, ReconcileError>,
)
    ensures
        ({
            let after = |following: Following|
                step(
                    scope,
                    fencing_token,
                    policy,
                    Stage::Persisting { current, next, following },
                    Reply::Done(Ok(())),
                );
            &&& after(Following::Drain) == (Stage::Draining { current: next })
            &&& after(Following::Freeze) == (Stage::Freezing { current: next })
            &&& after(Following::Checkpoint) == (Stage::Checkpointing { current: next })
            &&& after(Following::Thaw) == (Stage::Thawing { current: next })
            &&& after(Following::Restore(checkpoint)) == (Stage::Restoring {
                current: next,
                checkpoint,
            })
            &&& after(Following::Finish(ending)) == Stage::Finished(ending)
        }),
{
}

/// A failed call is reported with its own message, as a failure of the boundary that was
/// called.
pub proof fn law_failures_name_their_boundary(
    scope: ControllerScope,
    fencing_token: u64,
    policy: LifecyclePolicy,
    current: LifecycleRecord,
    next: LifecycleRecord,
    following: Following,
    checkpoint: LifecycleCheckpoint,
    ending: Result<ReconcileOutcome, ReconcileError>,
    message: String,
)
    ensures
        ({
            let after = |stage: Stage, reply: Reply|
                step(scope, fencing_token, policy, stage, reply);
            let failed = Reply::Done(Err(message));
            let record = Stage::Finished(Err(ReconcileError::Record(message)));
            let product = Stage::Finished(Err(ReconcileError::Product(message)));
            let effect = Stage::Finished(Err(ReconcileError::Effect(message)));
            &&& after(Stage::Persisting { current, next, following }, failed) == record
            &&& after(Stage::Observing { current }, Reply::Observed(Err(message))) == product
            &&& after(Stage::Cancelling { current, ending }, failed) == product
            &&& after(Stage::Readying { current }, failed) == product
            &&& after(Stage::Freezing { current }, failed) == effect
            &&& after(Stage::Checkpointing { current }, Reply::Checkpointed(Err(message)))
                == effect
            &&& after(Stage::Thawing { current }, failed) == effect
            &&& after(Stage::Restoring { current, checkpoint }, failed) == effect
            &&& after(Stage::Draining { current }, Reply::Quiesced(Err(message))) == (
            Stage::Cancelling { current, ending: Err(ReconcileError::Product(message)) })
        }),
{
}

/// A finished run stays finished, whatever is still replied.
pub proof fn law_finished_runs_stay_finished(
    scope: ControllerScope,
    fencing_token: u64,
    policy: LifecyclePolicy,
    replies: Seq<Reply>,
    later: Seq<Reply>,
)
    requires
        run(scope, fencing_token, policy, replies) is Finished,
    ensures
        run(scope, fencing_token, policy, replies + later) == run(
            scope,
            fencing_token,
            policy,
            replies,
        ),
    decreases later.len(),
{
    if later.len() == 0 {
        assert(replies + later =~= replies);
    } else {
        law_finished_runs_stay_finished(
            scope,
            fencing_token,
            policy,
            replies,
            later.drop_last(),
        );
        assert(replies + later =~= (replies + later.drop_last()).push(later.last()));
        lemma_run_push(scope, fencing_token, policy, replies + later.drop_last(), later.last());
    }
}

/// A suspended workload with nothing queued and nothing in flight stays suspended: the run is
/// over right after the observation, with nothing written and nothing woken. So is that of a
/// running workload that has work, or has not rested for the whole grace.
pub proof fn law_undisturbed_workloads_stay(
    scope: ControllerScope,
    fencing_token: u64,
    policy: LifecyclePolicy,
    record: LifecycleRecord,
    activity: ActivitySnapshot,
    later: Seq<Reply>,
)
    requires
        refusal(scope, fencing_token, policy, record) is None,
        ((record.state == PersistedLifecycleState::Frozen || record.state
            == PersistedLifecycleState::Hibernated) && activity.queue_depth == 0
            && activity.in_flight == 0) || (record.state == PersistedLifecycleState::Running && (
        activity.queue_depth > 0 || activity.in_flight > 0 || activity.idle_for_ms
            < policy.minimum_idle_ms)),
    ensures
        run(
            scope,
            fencing_token,
            policy,
            Seq::empty().push(Reply::Loaded(Ok(record))).push(Reply::Observed(Ok(activity)))
                + later,
        ) == Stage::Finished(Ok(ReconcileOutcome::NoChange)),
{
    let loaded = Seq::empty().push(Reply::Loaded(Ok(record)));
    let watched = loaded.push(Reply::Observed(Ok(activity)));
    lemma_run_push(scope, fencing_token, policy, Seq::empty(), Reply::Loaded(Ok(record)));
    lemma_run_push(scope, fencing_token, policy, loaded, Reply::Observed(Ok(activity)));
    law_finished_runs_stay_finished(scope, fencing_token, policy, watched, later);
}

/// A reply to another call than the one that a stage waits for ends the run as an invalid
/// transition, with nothing done.
pub proof fn law_foreign_replies_end_the_run(
    scope: ControllerScope,
    fencing_token: u64,
    policy: LifecyclePolicy,
    stage: Stage,
    reply: Reply,
)
    requires
        !(stage is Finished),
        match stage {
            Stage::Loading => !(reply is Loaded),
            Stage::Observing { .. } => !(reply is Observed),
            Stage::Draining { .. } => !(reply is Quiesced),
            Stage::Checkpointing { .. } => !(reply is Checkpointed),
            _ => !(reply is Done),
        },
    ensures
        step(scope, fencing_token, policy, stage, reply) == Stage::Finished(
            Err(ReconcileError::InvalidTransition),
        ),
{
}

/// A record whose revision cannot advance is never replaced: whatever would be written ends
/// the run as an invalid record.
pub proof fn law_last_revisions_are_kept(
    scope: ControllerScope,
    fencing_token: u64,
    policy: LifecyclePolicy,
    stage: Stage,
    reply: Reply,
)
    requires
        match stage {
            Stage::Observing { current } => current.revision == u64::MAX,
            Stage::Cancelling { current, .. } => current.revision == u64::MAX,
            Stage::Draining { current } => current.revision == u64::MAX,
            Stage::Freezing { current } => current.revision == u64::MAX,
            Stage::Checkpointing { current } => current.revision == u64::MAX,
            Stage::Readying { current } => current.revision == u64::MAX,
            _ => false,
        },
    ensures
        !(step(scope, fencing_token, policy, stage, reply) is Persisting),
        reply == Reply::Done(Ok(())) && (stage is Cancelling || stage is Freezing
            || stage is Readying) ==> step(scope, fencing_token, policy, stage, reply)
            == Stage::Finished(Err(ReconcileError::InvalidRecord)),
{
}

} // verus!
