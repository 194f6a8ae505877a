use ores_otel_sidecar::process_lifecycle::{
    decide, ActivitySnapshot, InvalidTransition, LifecycleEvent, LifecyclePolicy, LifecycleState,
    SuspendStrategy,
};
use ores_otel_sidecar::process_lifecycle_agent::{
    advance, perform, reconcile_once, ControllerScope, Following, LifecycleEffects,
    LifecycleRecordStore, ProductLifecycleControl, ProductQuiesceOutcome, ReconcileError,
    ReconcileOutcome, Reply, Stage,
};
use ores_otel_sidecar::process_lifecycle_record::{
    validate_record_update, LifecycleCheckpoint, LifecycleRecord, LifecycleRecordError,
    PersistedLifecycleState, PersistedSuspendStrategy,
};

const STATES: [PersistedLifecycleState; 8] = [
    PersistedLifecycleState::Running,
    PersistedLifecycleState::Quiescing,
    PersistedLifecycleState::Freezing,
    PersistedLifecycleState::Frozen,
    PersistedLifecycleState::Checkpointing,
    PersistedLifecycleState::Hibernated,
    PersistedLifecycleState::Thawing,
    PersistedLifecycleState::Restoring,
];

fn checkpoint() -> LifecycleCheckpoint {
    LifecycleCheckpoint {
        artifact_ref: "checkpoint://w/sha256:abc".to_owned(),
        digest: "sha256:abc".to_owned(),
        format: "criu-v1".to_owned(),
    }
}

fn record(
    strategy: PersistedSuspendStrategy,
    state: PersistedLifecycleState,
    checkpoint: Option<LifecycleCheckpoint>,
) -> LifecycleRecord {
    LifecycleRecord {
        workload_id: "w".to_owned(),
        assigned_node: "node-a".to_owned(),
        placement_epoch: 4,
        fencing_token: 9,
        revision: 12,
        state,
        strategy,
        checkpoint,
    }
}

fn scope() -> ControllerScope {
    ControllerScope {
        workload_id: "w".to_owned(),
        node: "node-a".to_owned(),
        placement_epoch: 4,
    }
}

fn policy(strategy: SuspendStrategy) -> LifecyclePolicy {
    LifecyclePolicy {
        strategy,
        minimum_idle_ms: 30_000,
    }
}

fn idle() -> ActivitySnapshot {
    ActivitySnapshot {
        queue_depth: 0,
        in_flight: 0,
        idle_for_ms: 30_000,
    }
}

fn busy() -> ActivitySnapshot {
    ActivitySnapshot {
        queue_depth: 0,
        in_flight: 1,
        idle_for_ms: 0,
    }
}

/// What every boundary was asked, in order; the calls named in `failing` fail.
#[derive(Default)]
struct Host {
    record: Option<LifecycleRecord>,
    activity: Option<ActivitySnapshot>,
    demand_returned: bool,
    failing: Vec<&'static str>,
    calls: Vec<String>,
}

impl Host {
    fn call(&mut self, name: &'static str, shown: String) -> Result<(), String> {
        self.calls.push(shown);
        if self.failing.contains(&name) {
            return Err(format!("{name} failed"));
        }
        Ok(())
    }
}

struct Store<'a>(&'a std::cell::RefCell<Host>);
struct Product<'a>(&'a std::cell::RefCell<Host>);
struct Effects<'a>(&'a std::cell::RefCell<Host>);

impl LifecycleRecordStore for Store<'_> {
    fn load(&mut self, workload_id: &str) -> Result<LifecycleRecord, String> {
        let mut host = self.0.borrow_mut();
        host.call("load", format!("load {workload_id}"))?;
        Ok(host.record.clone().unwrap())
    }

    fn replace(
        &mut self,
        expected: &LifecycleRecord,
        next: &LifecycleRecord,
    ) -> Result<(), String> {
        let mut host = self.0.borrow_mut();
        host.call("replace", format!("persist {}", next.state.wire_name()))?;
        assert_eq!(host.record.as_ref(), Some(expected));
        assert_eq!(validate_record_update(expected, next), Ok(()));
        assert!(next.authorizes_controller("node-a", 4, 10));
        host.record = Some(next.clone());
        Ok(())
    }
}

impl ProductLifecycleControl for Product<'_> {
    fn observe(&mut self) -> Result<ActivitySnapshot, String> {
        let mut host = self.0.borrow_mut();
        host.call("observe", "observe".to_owned())?;
        Ok(host.activity.unwrap())
    }

    fn quiesce(&mut self) -> Result<ProductQuiesceOutcome, String> {
        let mut host = self.0.borrow_mut();
        host.call("quiesce", "quiesce".to_owned())?;
        Ok(if host.demand_returned {
            ProductQuiesceOutcome::DemandReturned
        } else {
            ProductQuiesceOutcome::Drained
        })
    }

    fn cancel_quiesce(&mut self) -> Result<(), String> {
        self.0.borrow_mut().call("cancel", "cancel".to_owned())
    }

    fn ensure_ready(&mut self) -> Result<(), String> {
        self.0.borrow_mut().call("ready", "ready".to_owned())
    }
}

impl LifecycleEffects for Effects<'_> {
    fn freeze(&mut self) -> Result<(), String> {
        self.0.borrow_mut().call("freeze", "freeze".to_owned())
    }

    fn thaw(&mut self) -> Result<(), String> {
        self.0.borrow_mut().call("thaw", "thaw".to_owned())
    }

    fn checkpoint_and_terminate(&mut self) -> Result<LifecycleCheckpoint, String> {
        self.0
            .borrow_mut()
            .call("checkpoint", "checkpoint".to_owned())?;
        Ok(checkpoint())
    }

    fn restore(&mut self, from: &LifecycleCheckpoint) -> Result<(), String> {
        self.0
            .borrow_mut()
            .call("restore", format!("restore {}", from.digest))
    }
}

fn reconcile(
    strategy: SuspendStrategy,
    host: Host,
) -> (Result<ReconcileOutcome, ReconcileError>, String, LifecycleRecord) {
    let host = std::cell::RefCell::new(host);
    let outcome = reconcile_once(
        &scope(),
        10,
        policy(strategy),
        &mut Store(&host),
        &mut Product(&host),
        &mut Effects(&host),
    );
    let host = host.into_inner();
    (outcome, host.calls.join(", "), host.record.unwrap())
}

fn host(record: LifecycleRecord, activity: ActivitySnapshot) -> Host {
    Host {
        record: Some(record),
        activity: Some(activity),
        ..Host::default()
    }
}

#[test]
fn every_path_makes_its_calls_in_order() {
    let frozen = PersistedSuspendStrategy::Freeze;
    let hibernated = PersistedSuspendStrategy::Hibernate;
    let (outcome, calls, last) = reconcile(
        SuspendStrategy::Freeze,
        host(record(frozen, PersistedLifecycleState::Running, None), idle()),
    );
    assert_eq!(outcome, Ok(ReconcileOutcome::Suspended));
    assert_eq!(
        calls,
        "load w, observe, persist quiescing, quiesce, persist freezing, freeze, persist frozen"
    );
    assert_eq!(last.revision, 15);

    let (outcome, calls, last) = reconcile(
        SuspendStrategy::Hibernate,
        host(
            record(hibernated, PersistedLifecycleState::Running, None),
            idle(),
        ),
    );
    assert_eq!(outcome, Ok(ReconcileOutcome::Suspended));
    assert_eq!(
        calls,
        "load w, observe, persist quiescing, quiesce, persist checkpointing, checkpoint, persist hibernated"
    );
    assert_eq!(last.checkpoint, Some(checkpoint()));

    let (outcome, calls, last) = reconcile(
        SuspendStrategy::Hibernate,
        host(
            record(
                hibernated,
                PersistedLifecycleState::Hibernated,
                Some(checkpoint()),
            ),
            busy(),
        ),
    );
    assert_eq!(outcome, Ok(ReconcileOutcome::Resumed));
    assert_eq!(
        calls,
        "load w, observe, persist restoring, restore sha256:abc, ready, persist running"
    );
    assert_eq!(last.checkpoint, None);

    let (outcome, calls, _) = reconcile(
        SuspendStrategy::Freeze,
        host(record(frozen, PersistedLifecycleState::Frozen, None), busy()),
    );
    assert_eq!(outcome, Ok(ReconcileOutcome::Resumed));
    assert_eq!(
        calls,
        "load w, observe, persist thawing, thaw, ready, persist running"
    );

    let mut returning = host(record(frozen, PersistedLifecycleState::Running, None), idle());
    returning.demand_returned = true;
    let (outcome, calls, _) = reconcile(SuspendStrategy::Freeze, returning);
    assert_eq!(outcome, Ok(ReconcileOutcome::DemandCancelledSuspend));
    assert_eq!(
        calls,
        "load w, observe, persist quiescing, quiesce, cancel, persist running"
    );

    let (outcome, calls, _) = reconcile(
        SuspendStrategy::Freeze,
        host(
            record(frozen, PersistedLifecycleState::Quiescing, None),
            busy(),
        ),
    );
    assert_eq!(outcome, Ok(ReconcileOutcome::DemandCancelledSuspend));
    assert_eq!(calls, "load w, observe, cancel, persist running");

    for (state, activity) in [
        (PersistedLifecycleState::Running, busy()),
        (PersistedLifecycleState::Frozen, idle()),
    ] {
        let (outcome, calls, _) =
            reconcile(SuspendStrategy::Freeze, host(record(frozen, state, None), activity));
        assert_eq!(outcome, Ok(ReconcileOutcome::NoChange));
        assert_eq!(calls, "load w, observe");
    }
}

#[test]
fn a_failed_call_ends_the_run_with_its_message() {
    let frozen = PersistedSuspendStrategy::Freeze;
    let running = || record(frozen, PersistedLifecycleState::Running, None);
    let cases = vec![
        ("load", ReconcileError::Record("load failed".to_owned()), 1),
        (
            "observe",
            ReconcileError::Product("observe failed".to_owned()),
            2,
        ),
        (
            "replace",
            ReconcileError::Record("replace failed".to_owned()),
            3,
        ),
        (
            "freeze",
            ReconcileError::Effect("freeze failed".to_owned()),
            6,
        ),
    ];
    for (call, error, made) in cases {
        let mut failing = host(running(), idle());
        failing.failing.push(call);
        let (outcome, calls, _) = reconcile(SuspendStrategy::Freeze, failing);
        assert_eq!(outcome, Err(error));
        assert_eq!(calls.split(", ").count(), made, "{calls}");
    }
    for (call, error) in [
        ("thaw", ReconcileError::Effect("thaw failed".to_owned())),
        ("ready", ReconcileError::Product("ready failed".to_owned())),
    ] {
        let mut failing = host(
            record(frozen, PersistedLifecycleState::Frozen, None),
            busy(),
        );
        failing.failing.push(call);
        let (outcome, _, last) = reconcile(SuspendStrategy::Freeze, failing);
        assert_eq!(outcome, Err(error));
        assert_eq!(last.state, PersistedLifecycleState::Thawing);
    }
}

#[test]
fn a_failed_drain_leaves_the_workload_running() {
    for strategy in [
        PersistedSuspendStrategy::Freeze,
        PersistedSuspendStrategy::Hibernate,
    ] {
        let policy_strategy = match strategy {
            PersistedSuspendStrategy::Freeze => SuspendStrategy::Freeze,
            PersistedSuspendStrategy::Hibernate => SuspendStrategy::Hibernate,
        };
        let running = || record(strategy, PersistedLifecycleState::Running, None);
        let mut failing = host(running(), idle());
        failing.failing.push("quiesce");
        let (outcome, calls, last) = reconcile(policy_strategy, failing);
        assert_eq!(
            outcome,
            Err(ReconcileError::Product("quiesce failed".to_owned()))
        );
        assert_eq!(
            calls,
            "load w, observe, persist quiescing, quiesce, cancel, persist running"
        );
        assert_eq!(last.state, PersistedLifecycleState::Running);
        assert_eq!(last.fencing_token, 10);
        assert_eq!(last.revision, 14);

        let mut stuck = host(running(), idle());
        stuck.failing = vec!["quiesce", "cancel"];
        let (outcome, _, last) = reconcile(policy_strategy, stuck);
        assert_eq!(
            outcome,
            Err(ReconcileError::Product("cancel failed".to_owned()))
        );
        assert_eq!(last.state, PersistedLifecycleState::Quiescing);
    }
}

#[test]
fn refused_records_are_left_alone() {
    let running = || {
        record(
            PersistedSuspendStrategy::Freeze,
            PersistedLifecycleState::Running,
            None,
        )
    };
    let mut invalid = running();
    invalid.revision = 0;
    let mut elsewhere = running();
    elsewhere.assigned_node = "node-b".to_owned();
    let mut moved = running();
    moved.placement_epoch = 5;
    let mut newer = running();
    newer.fencing_token = 11;
    let mut other = running();
    other.strategy = PersistedSuspendStrategy::Hibernate;
    let mut cases = vec![
        (invalid, ReconcileError::InvalidRecord),
        (elsewhere, ReconcileError::StalePlacement),
        (moved, ReconcileError::StalePlacement),
        (newer, ReconcileError::StaleFence),
        (other, ReconcileError::InvalidRecord),
    ];
    for state in [
        PersistedLifecycleState::Freezing,
        PersistedLifecycleState::Checkpointing,
        PersistedLifecycleState::Thawing,
    ] {
        for strategy in [
            PersistedSuspendStrategy::Freeze,
            PersistedSuspendStrategy::Hibernate,
        ] {
            let transitional = record(strategy, state, None);
            cases.push((transitional, ReconcileError::RecoveryRequired(state)));
        }
    }
    cases.push((
        record(
            PersistedSuspendStrategy::Hibernate,
            PersistedLifecycleState::Restoring,
            Some(checkpoint()),
        ),
        ReconcileError::RecoveryRequired(PersistedLifecycleState::Restoring),
    ));
    for (refused, error) in cases {
        let (outcome, calls, last) = reconcile(SuspendStrategy::Freeze, host(refused.clone(), idle()));
        assert_eq!(outcome, Err(error));
        assert_eq!(calls, "load w");
        assert_eq!(last, refused);
    }
}

#[test]
fn another_policy_does_not_keep_a_workload_from_waking() {
    let (outcome, calls, _) = reconcile(
        SuspendStrategy::Hibernate,
        host(
            record(
                PersistedSuspendStrategy::Freeze,
                PersistedLifecycleState::Frozen,
                None,
            ),
            busy(),
        ),
    );
    assert_eq!(outcome, Ok(ReconcileOutcome::Resumed));
    assert_eq!(
        calls,
        "load w, observe, persist thawing, thaw, ready, persist running"
    );
    let (outcome, _, last) = reconcile(
        SuspendStrategy::Freeze,
        host(
            record(
                PersistedSuspendStrategy::Hibernate,
                PersistedLifecycleState::Hibernated,
                Some(checkpoint()),
            ),
            busy(),
        ),
    );
    assert_eq!(outcome, Ok(ReconcileOutcome::Resumed));
    assert_eq!(last.strategy, PersistedSuspendStrategy::Hibernate);
    let (outcome, calls, _) = reconcile(
        SuspendStrategy::Hibernate,
        host(
            record(
                PersistedSuspendStrategy::Freeze,
                PersistedLifecycleState::Quiescing,
                None,
            ),
            idle(),
        ),
    );
    assert_eq!(outcome, Ok(ReconcileOutcome::RecoveredQuiesce));
    assert_eq!(calls, "load w, observe, cancel, persist running");
}

#[test]
fn a_revision_that_cannot_advance_is_not_written() {
    let mut last = record(
        PersistedSuspendStrategy::Freeze,
        PersistedLifecycleState::Running,
        None,
    );
    last.revision = u64::MAX;
    let (outcome, calls, _) = reconcile(SuspendStrategy::Freeze, host(last, idle()));
    assert_eq!(outcome, Err(ReconcileError::InvalidRecord));
    assert_eq!(calls, "load w, observe");
}

#[test]
fn a_checkpoint_without_identity_is_not_recorded() {
    let current = record(
        PersistedSuspendStrategy::Hibernate,
        PersistedLifecycleState::Checkpointing,
        None,
    );
    let mut nameless = checkpoint();
    nameless.digest = String::new();
    let stage = |checkpoint| {
        advance(
            &scope(),
            10,
            policy(SuspendStrategy::Hibernate),
            Stage::Checkpointing {
                current: current.clone(),
            },
            Reply::Checkpointed(Ok(checkpoint)),
        )
    };
    assert_eq!(
        stage(nameless),
        Stage::Finished(Err(ReconcileError::InvalidRecord))
    );
    assert!(matches!(
        stage(checkpoint()),
        Stage::Persisting {
            following: Following::Finish(Ok(ReconcileOutcome::Suspended)),
            ..
        }
    ));
}

#[test]
fn replies_to_other_calls_are_invalid() {
    assert_eq!(
        advance(
            &scope(),
            10,
            policy(SuspendStrategy::Freeze),
            Stage::Loading,
            Reply::Done(Ok(()))
        ),
        Stage::Finished(Err(ReconcileError::InvalidTransition))
    );
    let finished = Stage::Finished(Ok(ReconcileOutcome::NoChange));
    let cell = std::cell::RefCell::new(Host::default());
    let reply = perform(
        &scope(),
        &finished,
        &mut Store(&cell),
        &mut Product(&cell),
        &mut Effects(&cell),
    );
    assert_eq!(reply, Reply::Done(Ok(())));
    assert_eq!(
        advance(&scope(), 10, policy(SuspendStrategy::Freeze), finished, reply),
        Stage::Finished(Ok(ReconcileOutcome::NoChange))
    );
}

#[test]
fn observations_do_not_disturb_effects_under_way() {
    for state in [
        LifecycleState::Freezing,
        LifecycleState::Checkpointing,
        LifecycleState::Resuming(SuspendStrategy::Freeze),
    ] {
        let event = LifecycleEvent::Observe(busy());
        assert_eq!(
            decide(state, policy(SuspendStrategy::Freeze), event),
            Err(InvalidTransition { state, event })
        );
    }
}

#[test]
fn records_are_validated_in_order() {
    let valid = || {
        record(
            PersistedSuspendStrategy::Freeze,
            PersistedLifecycleState::Running,
            None,
        )
    };
    assert_eq!(valid().validate(), Ok(()));
    let mut broken = valid();
    broken.revision = 0;
    assert_eq!(broken.validate(), Err(LifecycleRecordError::ZeroRevision));
    broken.fencing_token = 0;
    assert_eq!(
        broken.validate(),
        Err(LifecycleRecordError::ZeroFencingToken)
    );
    broken.placement_epoch = 0;
    assert_eq!(
        broken.validate(),
        Err(LifecycleRecordError::ZeroPlacementEpoch)
    );
    broken.assigned_node = String::new();
    assert_eq!(
        broken.validate(),
        Err(LifecycleRecordError::EmptyAssignedNode)
    );
    broken.workload_id = String::new();
    assert_eq!(
        broken.validate(),
        Err(LifecycleRecordError::EmptyWorkloadId)
    );
    for state in STATES {
        let mut bare = valid();
        bare.state = state;
        let mut holding = valid();
        holding.state = state;
        holding.checkpoint = Some(checkpoint());
        let (without, with) = match state {
            PersistedLifecycleState::Hibernated | PersistedLifecycleState::Restoring => {
                (Err(LifecycleRecordError::CheckpointRequired), Ok(()))
            }
            PersistedLifecycleState::Checkpointing => (Ok(()), Ok(())),
            _ => (Ok(()), Err(LifecycleRecordError::CheckpointNotAllowed)),
        };
        assert_eq!(bare.validate(), without);
        assert_eq!(holding.validate(), with);
        holding.checkpoint.as_mut().unwrap().format = String::new();
        assert_eq!(
            holding.validate(),
            Err(LifecycleRecordError::InvalidCheckpoint)
        );
    }
}

#[test]
fn replacements_move_forward_only() {
    let current = record(
        PersistedSuspendStrategy::Freeze,
        PersistedLifecycleState::Running,
        None,
    );
    let mut next = current.clone();
    assert_eq!(
        validate_record_update(&current, &next),
        Err(LifecycleRecordError::RevisionDidNotAdvance)
    );
    next.revision = 13;
    assert_eq!(validate_record_update(&current, &next), Ok(()));
    assert!(validate_record_update(&next, &current).is_err());
    next.placement_epoch = 3;
    assert_eq!(
        validate_record_update(&current, &next),
        Err(LifecycleRecordError::PlacementEpochRegressed)
    );
    next.workload_id = String::new();
    assert_eq!(
        validate_record_update(&current, &next),
        Err(LifecycleRecordError::EmptyWorkloadId)
    );
}

#[test]
fn wire_names_read_back() {
    for state in STATES {
        assert_eq!(
            PersistedLifecycleState::from_wire_name(state.wire_name()),
            Some(state)
        );
    }
    assert_eq!(PersistedLifecycleState::Thawing.wire_name(), "thawing");
    assert_eq!(PersistedLifecycleState::from_wire_name("Running"), None);
    for strategy in [
        PersistedSuspendStrategy::Freeze,
        PersistedSuspendStrategy::Hibernate,
    ] {
        assert_eq!(
            PersistedSuspendStrategy::from_wire_name(strategy.wire_name()),
            Some(strategy)
        );
    }
    assert_eq!(PersistedSuspendStrategy::from_wire_name(""), None);
}
