//! Pure process lifecycle policy for host agents that suspend idle workloads.
//!
//! Effects stay outside this module. Queue observation, cgroup freeze/thaw,
//! checkpoint/restore, and fenced lease acquisition are adapters owned by the
//! host agent. This module only decides the next explicit state and requested
//! effect.

use vstd::prelude::*;

verus! {

/// Resource-reclamation strategy selected for one managed workload.
#[derive(Clone, Copy, Debug, PartialEq, Eq, Structural)]
pub enum SuspendStrategy {
    /// Stop CPU scheduling while keeping the process and its memory image alive.
    Freeze,
    /// Persist restorable state and terminate the process so its RSS is released.
    Hibernate,
}

/// Stable lifecycle state persisted by the control plane.
#[derive(Clone, Copy, Debug, PartialEq, Eq, Structural)]
pub enum LifecycleState {
    Running,
    Quiescing(SuspendStrategy),
    Freezing,
    Frozen,
    Checkpointing,
    Hibernated,
    Resuming(SuspendStrategy),
}

/// Queue/work observation supplied by the product adapter.
#[derive(Clone, Copy, Debug, PartialEq, Eq, Structural)]
pub struct ActivitySnapshot {
    pub queue_depth: u64,
    pub in_flight: u64,
    /// Duration for which both queue depth and in-flight work have remained zero.
    pub idle_for_ms: u64,
}

impl ActivitySnapshot {
    /// Work is queued or in flight.
    pub open spec fn demanded(self) -> bool {
        self.queue_depth > 0 || self.in_flight > 0
    }

    /// There is no demand, and there has been none for at least `minimum_idle_ms`.
    pub open spec fn idle_since(self, minimum_idle_ms: u64) -> bool {
        !self.demanded() && self.idle_for_ms >= minimum_idle_ms
    }

    #[must_use]
    pub fn has_demand(self) -> (demand: bool)
        ensures
            demand == self.demanded(),
    {
        self.queue_depth > 0 || self.in_flight > 0
    }

    #[must_use]
    pub fn is_idle_for(self, minimum_idle_ms: u64) -> (idle: bool)
        ensures
            idle == self.idle_since(minimum_idle_ms),
    {
        !self.has_demand() && self.idle_for_ms >= minimum_idle_ms
    }
}

/// Policy is intentionally small enough to be owned by product configuration.
#[derive(Clone, Copy, Debug, PartialEq, Eq, Structural)]
pub struct LifecyclePolicy {
    pub strategy: SuspendStrategy,
    pub minimum_idle_ms: u64,
}

impl LifecyclePolicy {
    pub const MINIMUM_IDLE_MS: u64 = 1_000;

    /// A policy whose idle grace is long enough to keep a workload from flapping.
    pub fn new(strategy: SuspendStrategy, minimum_idle_ms: u64) -> (policy: Result<
        Self,
        PolicyError,
    >)
        ensures
            policy == (if minimum_idle_ms < Self::MINIMUM_IDLE_MS {
                Err::<LifecyclePolicy, PolicyError>(
                    PolicyError::IdleGraceTooShort {
                        minimum_idle_ms,
                        required_ms: Self::MINIMUM_IDLE_MS,
                    },
                )
            } else {
                Ok(LifecyclePolicy { strategy, minimum_idle_ms })
            }),
    {
        if minimum_idle_ms < Self::MINIMUM_IDLE_MS {
            return Err(
                PolicyError::IdleGraceTooShort {
                    minimum_idle_ms,
                    required_ms: Self::MINIMUM_IDLE_MS,
                },
            );
        }
        Ok(LifecyclePolicy { strategy, minimum_idle_ms })
    }
}

#[derive(Clone, Copy, Debug, PartialEq, Eq, Structural)]
pub enum PolicyError {
    IdleGraceTooShort { minimum_idle_ms: u64, required_ms: u64 },
}

/// Events are either observations or acknowledgements from an effect adapter.
#[derive(Clone, Copy, Debug, PartialEq, Eq, Structural)]
pub enum LifecycleEvent {
    Observe(ActivitySnapshot),
    QuiesceSucceeded,
    FreezeSucceeded,
    CheckpointSucceeded,
    ResumeSucceeded,
}

/// Effect requested from the host-agent adapter after persisting `next_state`.
#[derive(Clone, Copy, Debug, PartialEq, Eq, Structural)]
pub enum LifecycleAction {
    Stay,
    BeginQuiesce,
    CancelQuiesce,
    Freeze,
    CheckpointAndTerminate,
    Thaw,
    Restore,
}

#[derive(Clone, Copy, Debug, PartialEq, Eq, Structural)]
pub struct LifecycleDecision {
    pub next_state: LifecycleState,
    pub action: LifecycleAction,
}

impl LifecycleDecision {
    /// The decision for `state` that asks for no effect.
    pub fn stay(state: LifecycleState) -> (decision: Self)
        ensures
            decision == (LifecycleDecision { next_state: state, action: LifecycleAction::Stay }),
    {
        LifecycleDecision { next_state: state, action: LifecycleAction::Stay }
    }

    /// The decision for `next_state` that asks for `action`.
    pub fn transition(next_state: LifecycleState, action: LifecycleAction) -> (decision: Self)
        ensures
            decision == (LifecycleDecision { next_state, action }),
    {
        LifecycleDecision { next_state, action }
    }
}

#[derive(Clone, Copy, Debug, PartialEq, Eq, Structural)]
pub struct InvalidTransition {
    pub state: LifecycleState,
    pub event: LifecycleEvent,
}

pub open spec fn decision(
    next_state: LifecycleState,
    action: LifecycleAction,
) -> Option<LifecycleDecision> {
    Some(LifecycleDecision { next_state, action })
}

/// The transition table: what `event` leads to in `state`, or `None` where the
/// event has no meaning.
pub open spec fn transition_table(
    state: LifecycleState,
    policy: LifecyclePolicy,
    event: LifecycleEvent,
) -> Option<LifecycleDecision> {
    match (state, event) {
        (LifecycleState::Running, LifecycleEvent::Observe(activity)) => if activity.idle_since(
            policy.minimum_idle_ms,
        ) {
            decision(LifecycleState::Quiescing(policy.strategy), LifecycleAction::BeginQuiesce)
        } else {
            decision(state, LifecycleAction::Stay)
        },
        (LifecycleState::Quiescing(_), LifecycleEvent::Observe(activity)) => if activity.demanded() {
            decision(LifecycleState::Running, LifecycleAction::CancelQuiesce)
        } else {
            decision(state, LifecycleAction::Stay)
        },
        (LifecycleState::Quiescing(SuspendStrategy::Freeze), LifecycleEvent::QuiesceSucceeded) =>
            decision(LifecycleState::Freezing, LifecycleAction::Freeze),
        (LifecycleState::Quiescing(SuspendStrategy::Hibernate), LifecycleEvent::QuiesceSucceeded) =>
            decision(LifecycleState::Checkpointing, LifecycleAction::CheckpointAndTerminate),
        (LifecycleState::Freezing, LifecycleEvent::FreezeSucceeded) => decision(
            LifecycleState::Frozen,
            LifecycleAction::Stay,
        ),
        (LifecycleState::Checkpointing, LifecycleEvent::CheckpointSucceeded) => decision(
            LifecycleState::Hibernated,
            LifecycleAction::Stay,
        ),
        (LifecycleState::Frozen, LifecycleEvent::Observe(activity)) => if activity.demanded() {
            decision(LifecycleState::Resuming(SuspendStrategy::Freeze), LifecycleAction::Thaw)
        } else {
            decision(state, LifecycleAction::Stay)
        },
        (LifecycleState::Hibernated, LifecycleEvent::Observe(activity)) => if activity.demanded() {
            decision(LifecycleState::Resuming(SuspendStrategy::Hibernate), LifecycleAction::Restore)
        } else {
            decision(state, LifecycleAction::Stay)
        },
        (LifecycleState::Resuming(_), LifecycleEvent::ResumeSucceeded) => decision(
            LifecycleState::Running,
            LifecycleAction::Stay,
        ),
        _ => None,
    }
}

/// The outcome of one decision: the table's entry, or the rejected pair.
pub open spec fn decided(
    state: LifecycleState,
    policy: LifecyclePolicy,
    event: LifecycleEvent,
) -> Result<LifecycleDecision, InvalidTransition> {
    match transition_table(state, policy, event) {
        Some(entry) => Ok(entry),
        None => Err(InvalidTransition { state, event }),
    }
}

/// Decide one lifecycle transition with no I/O, clock, or locking effects.
pub fn decide(
    state: LifecycleState,
    policy: LifecyclePolicy,
    event: LifecycleEvent,
) -> (decision: Result<LifecycleDecision, InvalidTransition>)
    ensures
        decision == decided(state, policy, event),
{
    match state {
        LifecycleState::Running => decide_running(policy, event),
        LifecycleState::Quiescing(strategy) => decide_quiescing(policy, strategy, event),
        LifecycleState::Freezing => decide_freezing(policy, event),
        LifecycleState::Frozen => decide_frozen(policy, event),
        LifecycleState::Checkpointing => decide_checkpointing(policy, event),
        LifecycleState::Hibernated => decide_hibernated(policy, event),
        LifecycleState::Resuming(strategy) => decide_resuming(policy, strategy, event),
    }
}

fn decide_running(policy: LifecyclePolicy, event: LifecycleEvent) -> (decision: Result<
    LifecycleDecision,
    InvalidTransition,
>)
    ensures
        decision == decided(LifecycleState::Running, policy, event),
{
    match event {
        LifecycleEvent::Observe(activity) => {
            if activity.is_idle_for(policy.minimum_idle_ms) {
                return Ok(
                    LifecycleDecision::transition(
                        LifecycleState::Quiescing(policy.strategy),
                        LifecycleAction::BeginQuiesce,
                    ),
                );
            }
            Ok(LifecycleDecision::stay(LifecycleState::Running))
        },
        LifecycleEvent::QuiesceSucceeded
        | LifecycleEvent::FreezeSucceeded
        | LifecycleEvent::CheckpointSucceeded
        | LifecycleEvent::ResumeSucceeded => Err(
            InvalidTransition { state: LifecycleState::Running, event },
        ),
    }
}

fn decide_quiescing(
    policy: LifecyclePolicy,
    strategy: SuspendStrategy,
    event: LifecycleEvent,
) -> (decision: Result<LifecycleDecision, InvalidTransition>)
    ensures
        decision == decided(LifecycleState::Quiescing(strategy), policy, event),
{
    match event {
        LifecycleEvent::Observe(activity) => {
            if activity.has_demand() {
                return Ok(
                    LifecycleDecision::transition(
                        LifecycleState::Running,
                        LifecycleAction::CancelQuiesce,
                    ),
                );
            }
            Ok(LifecycleDecision::stay(LifecycleState::Quiescing(strategy)))
        },
        LifecycleEvent::QuiesceSucceeded => match strategy {
            SuspendStrategy::Freeze => Ok(
                LifecycleDecision::transition(LifecycleState::Freezing, LifecycleAction::Freeze),
            ),
            SuspendStrategy::Hibernate => Ok(
                LifecycleDecision::transition(
                    LifecycleState::Checkpointing,
                    LifecycleAction::CheckpointAndTerminate,
                ),
            ),
        },
        LifecycleEvent::FreezeSucceeded
        | LifecycleEvent::CheckpointSucceeded
        | LifecycleEvent::ResumeSucceeded => Err(
            InvalidTransition { state: LifecycleState::Quiescing(strategy), event },
        ),
    }
}

fn decide_freezing(policy: LifecyclePolicy, event: LifecycleEvent) -> (decision: Result<
    LifecycleDecision,
    InvalidTransition,
>)
    ensures
        decision == decided(LifecycleState::Freezing, policy, event),
{
    match event {
        LifecycleEvent::FreezeSucceeded => Ok(LifecycleDecision::stay(LifecycleState::Frozen)),
        LifecycleEvent::Observe(_)
        | LifecycleEvent::QuiesceSucceeded
        | LifecycleEvent::CheckpointSucceeded
        | LifecycleEvent::ResumeSucceeded => Err(
            InvalidTransition { state: LifecycleState::Freezing, event },
        ),
    }
}

fn decide_frozen(policy: LifecyclePolicy, event: LifecycleEvent) -> (decision: Result<
    LifecycleDecision,
    InvalidTransition,
>)
    ensures
        decision == decided(LifecycleState::Frozen, policy, event),
{
    match event {
        LifecycleEvent::Observe(activity) => {
            if activity.has_demand() {
                return Ok(
                    LifecycleDecision::transition(
                        LifecycleState::Resuming(SuspendStrategy::Freeze),
                        LifecycleAction::Thaw,
                    ),
                );
            }
            Ok(LifecycleDecision::stay(LifecycleState::Frozen))
        },
        LifecycleEvent::QuiesceSucceeded
        | LifecycleEvent::FreezeSucceeded
        | LifecycleEvent::CheckpointSucceeded
        | LifecycleEvent::ResumeSucceeded => Err(
            InvalidTransition { state: LifecycleState::Frozen, event },
        ),
    }
}

fn decide_checkpointing(policy: LifecyclePolicy, event: LifecycleEvent) -> (decision: Result<
    LifecycleDecision,
    InvalidTransition,
>)
    ensures
        decision == decided(LifecycleState::Checkpointing, policy, event),
{
    match event {
        LifecycleEvent::CheckpointSucceeded => Ok(
            LifecycleDecision::stay(LifecycleState::Hibernated),
        ),
        LifecycleEvent::Observe(_)
        | LifecycleEvent::QuiesceSucceeded
        | LifecycleEvent::FreezeSucceeded
        | LifecycleEvent::ResumeSucceeded => Err(
            InvalidTransition { state: LifecycleState::Checkpointing, event },
        ),
    }
}

fn decide_hibernated(policy: LifecyclePolicy, event: LifecycleEvent) -> (decision: Result<
    LifecycleDecision,
    InvalidTransition,
>)
    ensures
        decision == decided(LifecycleState::Hibernated, policy, event),
{
    match event {
        LifecycleEvent::Observe(activity) => {
            if activity.has_demand() {
                return Ok(
                    LifecycleDecision::transition(
                        LifecycleState::Resuming(SuspendStrategy::Hibernate),
                        LifecycleAction::Restore,
                    ),
                );
            }
            Ok(LifecycleDecision::stay(LifecycleState::Hibernated))
        },
        LifecycleEvent::QuiesceSucceeded
        | LifecycleEvent::FreezeSucceeded
        | LifecycleEvent::CheckpointSucceeded
        | LifecycleEvent::ResumeSucceeded => Err(
            InvalidTransition { state: LifecycleState::Hibernated, event },
        ),
    }
}

fn decide_resuming(
    policy: LifecyclePolicy,
    strategy: SuspendStrategy,
    event: LifecycleEvent,
) -> (decision: Result<LifecycleDecision, InvalidTransition>)
    ensures
        decision == decided(LifecycleState::Resuming(strategy), policy, event),
{
    match event {
        LifecycleEvent::ResumeSucceeded => Ok(LifecycleDecision::stay(LifecycleState::Running)),
        LifecycleEvent::Observe(_)
        | LifecycleEvent::QuiesceSucceeded
        | LifecycleEvent::FreezeSucceeded
        | LifecycleEvent::CheckpointSucceeded => Err(
            InvalidTransition { state: LifecycleState::Resuming(strategy), event },
        ),
    }
}

/// A running workload starts to suspend exactly when it has had no demand for the
/// whole idle grace; every other observation leaves it running.
pub proof fn law_idle_grace_guards_suspension(policy: LifecyclePolicy, activity: ActivitySnapshot)
    ensures
        ({
            let entry = transition_table(
                LifecycleState::Running,
                policy,
                LifecycleEvent::Observe(activity),
            );
            &&& entry is Some
            &&& entry->0.action == LifecycleAction::BeginQuiesce <==> (activity.queue_depth == 0
                && activity.in_flight == 0 && activity.idle_for_ms >= policy.minimum_idle_ms)
            &&& entry->0.action != LifecycleAction::BeginQuiesce ==> entry == decision(
                LifecycleState::Running,
                LifecycleAction::Stay,
            )
        }),
{
}

/// Once a process effect is under way an observation is no event: demand waits for
/// the normal wake path instead of cancelling the effect.
pub proof fn law_committed_effects_ignore_observations(
    state: LifecycleState,
    policy: LifecyclePolicy,
    activity: ActivitySnapshot,
)
    requires
        state == LifecycleState::Freezing || state == LifecycleState::Checkpointing
            || state is Resuming,
    ensures
        transition_table(state, policy, LifecycleEvent::Observe(activity)) is None,
{
}

/// Demand always leads a quiescing or suspended workload towards running, and only
/// demand does.
pub proof fn law_demand_wakes(
    state: LifecycleState,
    policy: LifecyclePolicy,
    activity: ActivitySnapshot,
)
    requires
        state is Quiescing || state == LifecycleState::Frozen || state
            == LifecycleState::Hibernated,
    ensures
        ({
            let entry = transition_table(state, policy, LifecycleEvent::Observe(activity));
            &&& entry is Some
            &&& activity.demanded() <==> entry->0.next_state != state
            &&& activity.demanded() ==> (entry->0.next_state == LifecycleState::Running
                || entry->0.next_state is Resuming)
            &&& !activity.demanded() ==> entry->0.action == LifecycleAction::Stay
        }),
{
}

/// A process effect is requested together with the state that records its intent,
/// and that state is entered only with its effect.
pub proof fn law_effects_match_intent_states(
    state: LifecycleState,
    policy: LifecyclePolicy,
    event: LifecycleEvent,
)
    requires
        transition_table(state, policy, event) is Some,
    ensures
        ({
            let entry = transition_table(state, policy, event)->0;
            &&& entry.action == LifecycleAction::Freeze <==> entry.next_state
                == LifecycleState::Freezing
            &&& entry.action == LifecycleAction::CheckpointAndTerminate <==> entry.next_state
                == LifecycleState::Checkpointing
            &&& entry.action == LifecycleAction::Thaw <==> entry.next_state
                == LifecycleState::Resuming(SuspendStrategy::Freeze)
            &&& entry.action == LifecycleAction::Restore <==> entry.next_state
                == LifecycleState::Resuming(SuspendStrategy::Hibernate)
        }),
{
}

/// A workload is suspended only by its own strategy: freezing never ends in
/// hibernation, nor a checkpoint in a frozen process.
pub proof fn law_suspension_follows_strategy(policy: LifecyclePolicy, strategy: SuspendStrategy)
    ensures
        ({
            let drained = transition_table(
                LifecycleState::Quiescing(strategy),
                policy,
                LifecycleEvent::QuiesceSucceeded,
            );
            &&& drained is Some
            &&& strategy == SuspendStrategy::Freeze ==> transition_table(
                drained->0.next_state,
                policy,
                LifecycleEvent::FreezeSucceeded,
            ) == decision(LifecycleState::Frozen, LifecycleAction::Stay)
            &&& strategy == SuspendStrategy::Hibernate ==> transition_table(
                drained->0.next_state,
                policy,
                LifecycleEvent::CheckpointSucceeded,
            ) == decision(LifecycleState::Hibernated, LifecycleAction::Stay)
            &&& strategy == SuspendStrategy::Freeze ==> transition_table(
                drained->0.next_state,
                policy,
                LifecycleEvent::CheckpointSucceeded,
            ) is None
            &&& strategy == SuspendStrategy::Hibernate ==> transition_table(
                drained->0.next_state,
                policy,
                LifecycleEvent::FreezeSucceeded,
            ) is None
        }),
{
}

/// What is queued or in flight is demand, and nothing else is; a workload is idle where it
/// has no demand and has had none for long enough.
pub proof fn law_demand_is_work(activity: ActivitySnapshot, minimum_idle_ms: u64)
    ensures
        activity.demanded() <==> !(activity.queue_depth == 0 && activity.in_flight == 0),
        activity.idle_since(minimum_idle_ms) <==> activity.queue_depth == 0 && activity.in_flight
            == 0 && activity.idle_for_ms >= minimum_idle_ms,
{
}

/// What an observation leads to: a running workload that has been idle for the whole grace
/// begins to quiesce by the policy's strategy, demand cancels a quiesce and wakes a suspended
/// workload the way it was suspended, and everything else stays as it is. Work that is
/// waiting never suspends a workload, and its absence never wakes one.
pub proof fn law_what_observations_lead_to(
    state: LifecycleState,
    policy: LifecyclePolicy,
    activity: ActivitySnapshot,
)
    requires
        !(state == LifecycleState::Freezing || state == LifecycleState::Checkpointing
            || state is Resuming),
    ensures
        ({
            let entry = transition_table(state, policy, LifecycleEvent::Observe(activity));
            let working = activity.queue_depth > 0 || activity.in_flight > 0;
            let rested = activity.idle_for_ms >= policy.minimum_idle_ms;
            let next = |next_state: LifecycleState, action: LifecycleAction|
                entry == Some(LifecycleDecision { next_state, action });
            &&& !working && state == LifecycleState::Running && rested ==> next(
                LifecycleState::Quiescing(policy.strategy),
                LifecycleAction::BeginQuiesce,
            )
            &&& working && state is Quiescing ==> next(
                LifecycleState::Running,
                LifecycleAction::CancelQuiesce,
            )
            &&& working && state == LifecycleState::Frozen ==> next(
                LifecycleState::Resuming(SuspendStrategy::Freeze),
                LifecycleAction::Thaw,
            )
            &&& working && state == LifecycleState::Hibernated ==> next(
                LifecycleState::Resuming(SuspendStrategy::Hibernate),
                LifecycleAction::Restore,
            )
            &&& working && state == LifecycleState::Running ==> next(state, LifecycleAction::Stay)
            &&& !working && !(state == LifecycleState::Running && rested) ==> next(
                state,
                LifecycleAction::Stay,
            )
        }),
{
}

/// What an acknowledgement leads to: each is an event of the one state that waits for it, and
/// moves the workload on to the next one.
pub proof fn law_what_acknowledgements_lead_to(
    state: LifecycleState,
    policy: LifecyclePolicy,
    event: LifecycleEvent,
)
    requires
        !(event is Observe),
    ensures
        ({
            let entry = transition_table(state, policy, event);
            let next = |next_state: LifecycleState, action: LifecycleAction|
                entry == Some(LifecycleDecision { next_state, action });
            &&& event == LifecycleEvent::QuiesceSucceeded ==> {
                &&& state == LifecycleState::Quiescing(SuspendStrategy::Freeze) ==> next(
                    LifecycleState::Freezing,
                    LifecycleAction::Freeze,
                )
                &&& state == LifecycleState::Quiescing(SuspendStrategy::Hibernate) ==> next(
                    LifecycleState::Checkpointing,
                    LifecycleAction::CheckpointAndTerminate,
                )
                &&& entry is Some <==> state is Quiescing
            }
            &&& event == LifecycleEvent::FreezeSucceeded ==> {
                &&& state == LifecycleState::Freezing ==> next(
                    LifecycleState::Frozen,
                    LifecycleAction::Stay,
                )
                &&& entry is Some <==> state == LifecycleState::Freezing
            }
            &&& event == LifecycleEvent::CheckpointSucceeded ==> {
                &&& state == LifecycleState::Checkpointing ==> next(
                    LifecycleState::Hibernated,
                    LifecycleAction::Stay,
                )
                &&& entry is Some <==> state == LifecycleState::Checkpointing
            }
            &&& event == LifecycleEvent::ResumeSucceeded ==> {
                &&& state is Resuming ==> next(LifecycleState::Running, LifecycleAction::Stay)
                &&& entry is Some <==> state is Resuming
            }
        }),
{
}

/// An event without a meaning is reported with the state and the event themselves, and every
/// other one is answered.
pub proof fn law_invalid_events_are_reported(
    state: LifecycleState,
    policy: LifecyclePolicy,
    event: LifecycleEvent,
)
    ensures
        match decided(state, policy, event) {
            Ok(entry) => transition_table(state, policy, event) == Some(entry),
            Err(invalid) => invalid.state == state && invalid.event == event && transition_table(
                state,
                policy,
                event,
            ) is None,
        },
{
}

/// A policy is made exactly where its idle grace lasts a second or more, and then it is the
/// one that was asked for; a shorter grace is reported with the shortest one that would do.
pub proof fn law_which_policies_are_made(
    strategy: SuspendStrategy,
    minimum_idle_ms: u64,
    policy: Result<LifecyclePolicy, PolicyError>,
)
    requires
        call_ensures(LifecyclePolicy::new, (strategy, minimum_idle_ms), policy),
    ensures
        policy is Ok <==> minimum_idle_ms >= 1_000,
        policy matches Ok(made) ==> made.strategy == strategy && made.minimum_idle_ms
            == minimum_idle_ms,
        policy matches Err(PolicyError::IdleGraceTooShort { minimum_idle_ms: asked, required_ms })
            ==> asked == minimum_idle_ms && required_ms == 1_000,
{
}

} // verus!
