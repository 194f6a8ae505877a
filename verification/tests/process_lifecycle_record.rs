use ores_otel_sidecar::process_lifecycle_record::{
    validate_record_update, LifecycleRecord, LifecycleRecordError, PersistedLifecycleState,
    PersistedSuspendStrategy,
};

fn record() -> LifecycleRecord {
    return LifecycleRecord {
        workload_id: "tenant-42-shard-3".to_owned(),
        assigned_node: "node-a".to_owned(),
        placement_epoch: 7,
        fencing_token: 19,
        revision: 11,
        state: PersistedLifecycleState::Frozen,
        strategy: PersistedSuspendStrategy::Freeze,
        checkpoint: None,
    };
}

#[test]
fn stale_fence_cannot_publish_state() {
    let current = record();
    let mut next = current.clone();
    next.fencing_token = 18;
    next.revision = 12;

    assert_eq!(
        validate_record_update(&current, &next),
        Err(LifecycleRecordError::StaleFencingToken)
    );
}

#[test]
fn workload_identity_cannot_change_in_place() {
    let current = record();
    let mut next = current.clone();
    next.workload_id = "tenant-99-shard-1".to_owned();
    next.fencing_token = 20;
    next.revision = 12;

    assert_eq!(
        validate_record_update(&current, &next),
        Err(LifecycleRecordError::WorkloadChanged)
    );
}

#[test]
fn reassignment_requires_new_placement_epoch() {
    let current = record();
    let mut next = current.clone();
    next.assigned_node = "node-b".to_owned();
    next.fencing_token = 20;
    next.revision = 12;

    assert_eq!(
        validate_record_update(&current, &next),
        Err(LifecycleRecordError::PlacementChangedWithoutEpochAdvance)
    );
}

#[test]
fn reassignment_invalidates_old_host_authority() {
    let current = record();
    let mut next = current.clone();
    next.assigned_node = "node-b".to_owned();
    next.placement_epoch = 8;
    next.fencing_token = 20;
    next.revision = 12;

    assert_eq!(validate_record_update(&current, &next), Ok(()));
    assert!(!next.authorizes_controller("node-a", 7, 19));
    assert!(next.authorizes_controller("node-b", 8, 20));
}

#[test]
fn hibernated_record_requires_checkpoint() {
    let mut value = record();
    value.state = PersistedLifecycleState::Hibernated;
    value.strategy = PersistedSuspendStrategy::Hibernate;

    assert_eq!(
        value.validate(),
        Err(LifecycleRecordError::CheckpointRequired)
    );
}

#[test]
fn same_fence_can_advance_multi_step_transition() {
    let current = record();
    let mut next = current.clone();
    next.revision = 12;
    next.state = PersistedLifecycleState::Running;

    assert_eq!(validate_record_update(&current, &next), Ok(()));
}
