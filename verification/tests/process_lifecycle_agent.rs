use ores_otel_sidecar::process_lifecycle::{ActivitySnapshot, LifecyclePolicy, SuspendStrategy};
use ores_otel_sidecar::process_lifecycle_agent::{
    reconcile_once, ControllerScope, LifecycleEffects, LifecycleRecordStore,
    ProductLifecycleControl, ProductQuiesceOutcome, ReconcileError, ReconcileOutcome,
};
use ores_otel_sidecar::process_lifecycle_record::{
    LifecycleCheckpoint, LifecycleRecord, PersistedLifecycleState, PersistedSuspendStrategy,
};

struct MemoryStore {
    record: LifecycleRecord,
}

impl LifecycleRecordStore for MemoryStore {
    fn load(&mut self, _workload_id: &str) -> Result<LifecycleRecord, String> {
        return Ok(self.record.clone());
    }

    fn replace(&mut self,
        expected: &LifecycleRecord,
        next: &LifecycleRecord,
    ) -> Result<(), String> {
        if self.record != *expected {
            return Err("compare-and-set conflict".to_owned());
        }
        self.record = next.clone();
        return Ok(());
    }
}

struct FakeProduct {
    activity: ActivitySnapshot,
    quiesce: ProductQuiesceOutcome,
    ready: bool,
}

impl ProductLifecycleControl for FakeProduct {
    fn observe(&mut self) -> Result<ActivitySnapshot, String> {
        return Ok(self.activity);
    }

    fn quiesce(&mut self) -> Result<ProductQuiesceOutcome, String> {
        return Ok(self.quiesce);
    }

    fn cancel_quiesce(&mut self) -> Result<(), String> {
        return Ok(());
    }

    fn ensure_ready(&mut self) -> Result<(), String> {
        if self.ready {
            return Ok(());
        }
        return Err("not ready".to_owned());
    }
}

#[derive(Default)]
struct FakeEffects {
    frozen: bool,
}

impl LifecycleEffects for FakeEffects {
    fn freeze(&mut self) -> Result<(), String> {
        self.frozen = true;
        return Ok(());
    }

    fn thaw(&mut self) -> Result<(), String> {
        self.frozen = false;
        return Ok(());
    }

    fn checkpoint_and_terminate(&mut self) -> Result<LifecycleCheckpoint, String> {
        return Ok(LifecycleCheckpoint {
            artifact_ref: "checkpoint://workload/sha256:abc".to_owned(),
            digest: "sha256:abc".to_owned(),
            format: "criu-v1".to_owned(),
        });
    }

    fn restore(&mut self, _checkpoint: &LifecycleCheckpoint) -> Result<(), String> {
        return Ok(());
    }
}

fn running_record(strategy: PersistedSuspendStrategy) -> LifecycleRecord {
    return LifecycleRecord {
        workload_id: "workload-7".to_owned(),
        assigned_node: "node-a".to_owned(),
        placement_epoch: 4,
        fencing_token: 9,
        revision: 12,
        state: PersistedLifecycleState::Running,
        strategy,
        checkpoint: None,
    };
}

fn scope() -> ControllerScope {
    return ControllerScope {
        workload_id: "workload-7".to_owned(),
        node: "node-a".to_owned(),
        placement_epoch: 4,
    };
}

#[test]
fn process_lifecycle_agent_idle_freeze_persists_intents_before_effect_completion() {
    let mut store = MemoryStore {
        record: running_record(PersistedSuspendStrategy::Freeze),
    };
    let mut product = FakeProduct {
        activity: ActivitySnapshot {
            queue_depth: 0,
            in_flight: 0,
            idle_for_ms: 60_000,
        },
        quiesce: ProductQuiesceOutcome::Drained,
        ready: true,
    };
    let mut effects = FakeEffects::default();
    let policy = LifecyclePolicy::new(SuspendStrategy::Freeze, 30_000).unwrap();

    let outcome = reconcile_once(&scope(), 10, policy, &mut store, &mut product, &mut effects).unwrap();

    assert_eq!(outcome, ReconcileOutcome::Suspended);
    assert_eq!(store.record.state, PersistedLifecycleState::Frozen);
    assert_eq!(store.record.fencing_token, 10);
    assert!(effects.frozen);
}

#[test]
fn process_lifecycle_agent_demand_returned_during_quiesce_leaves_workload_running() {
    let mut store = MemoryStore {
        record: running_record(PersistedSuspendStrategy::Freeze),
    };
    let mut product = FakeProduct {
        activity: ActivitySnapshot {
            queue_depth: 0,
            in_flight: 0,
            idle_for_ms: 60_000,
        },
        quiesce: ProductQuiesceOutcome::DemandReturned,
        ready: true,
    };
    let mut effects = FakeEffects::default();
    let policy = LifecyclePolicy::new(SuspendStrategy::Freeze, 30_000).unwrap();

    let outcome = reconcile_once(&scope(), 10, policy, &mut store, &mut product, &mut effects).unwrap();

    assert_eq!(outcome, ReconcileOutcome::DemandCancelledSuspend);
    assert_eq!(store.record.state, PersistedLifecycleState::Running);
    assert!(!effects.frozen);
}

#[test]
fn process_lifecycle_agent_frozen_demand_thaws_then_requires_product_readiness() {
    let mut record = running_record(PersistedSuspendStrategy::Freeze);
    record.state = PersistedLifecycleState::Frozen;
    let mut store = MemoryStore {
        record,
    };
    let mut product = FakeProduct {
        activity: ActivitySnapshot {
            queue_depth: 1,
            in_flight: 0,
            idle_for_ms: 0,
        },
        quiesce: ProductQuiesceOutcome::Drained,
        ready: true,
    };
    let mut effects = FakeEffects {
        frozen: true,
    };
    let policy = LifecyclePolicy::new(SuspendStrategy::Freeze, 30_000).unwrap();

    let outcome = reconcile_once(&scope(), 10, policy, &mut store, &mut product, &mut effects).unwrap();

    assert_eq!(outcome, ReconcileOutcome::Resumed);
    assert_eq!(store.record.state, PersistedLifecycleState::Running);
    assert!(!effects.frozen);
}

#[test]
fn process_lifecycle_agent_transitional_state_requires_crash_recovery_path() {
    let mut record = running_record(PersistedSuspendStrategy::Freeze);
    record.state = PersistedLifecycleState::Freezing;
    let mut store = MemoryStore {
        record,
    };
    let mut product = FakeProduct {
        activity: ActivitySnapshot {
            queue_depth: 0,
            in_flight: 0,
            idle_for_ms: 60_000,
        },
        quiesce: ProductQuiesceOutcome::Drained,
        ready: true,
    };
    let mut effects = FakeEffects::default();
    let policy = LifecyclePolicy::new(SuspendStrategy::Freeze, 30_000).unwrap();

    assert_eq!(
        reconcile_once(&scope(), 10, policy, &mut store, &mut product, &mut effects),
        Err(ReconcileError::RecoveryRequired(
            PersistedLifecycleState::Freezing
        ))
    );
}
