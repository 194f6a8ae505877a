use ores_otel_sidecar::runtime_updates::{
    RuntimeUpdateBatch, RuntimeUpdateController, RuntimeUpdateOperation, RuntimeUpdateOutcome,
    RuntimeUpdateState,
};
use ores_otel_sidecar::runtime_values::RuntimeValues;
use ores_otel_sidecar::text_map::TextMap;

const NS: &str = "ores-otel-sidecar";
const CACHE: &str = "runtime-env";

fn controller() -> RuntimeUpdateController {
    let values = RuntimeValues::new(
        vec!["LOG_FILTER".to_owned(), "REQUEST_TIMEOUT_MS".to_owned()],
        vec![("LOG_FILTER".to_owned(), "info".to_owned())],
    )
    .unwrap();
    RuntimeUpdateController::for_target(values, NS, CACHE).unwrap()
}

fn batch(revision: u64, operation: RuntimeUpdateOperation) -> RuntimeUpdateBatch {
    RuntimeUpdateBatch::new(NS, CACHE, revision, operation)
}

#[test]
fn snapshot_override_and_delete_restore_baseline() {
    let mut controller = controller();
    assert_eq!(
        controller
            .apply_snapshot(
                NS,
                CACHE,
                5,
                TextMap::from_entries(vec![("LOG_FILTER".to_owned(), "debug".to_owned())])
            )
            .unwrap(),
        RuntimeUpdateOutcome::Applied { revision: 5 }
    );
    assert_eq!(
        controller.values().get("LOG_FILTER").as_deref(),
        Some("debug")
    );
    controller
        .apply_snapshot(NS, CACHE, 6, TextMap::new())
        .unwrap();
    assert_eq!(
        controller.values().get("LOG_FILTER").as_deref(),
        Some("info")
    );
}

#[test]
fn target_mismatch_is_atomic() {
    let mut controller = controller();
    assert!(controller
        .apply_snapshot("another-service", CACHE, 1, TextMap::new())
        .is_err());
    let wrong = RuntimeUpdateBatch::new("another-service", CACHE, 1, RuntimeUpdateOperation::Invalidate);
    assert!(controller.apply_batch(wrong).is_err());
    assert_eq!(controller.state(), RuntimeUpdateState::default());
}

#[test]
fn unconfigured_controller_rejects_backend_updates() {
    let mut controller = RuntimeUpdateController::new(RuntimeValues::default());
    assert!(controller
        .apply_snapshot(NS, CACHE, 0, TextMap::new())
        .is_err());
}

#[test]
fn stale_snapshot_cannot_roll_back_newer_state() {
    let mut controller = controller();
    controller
        .apply_snapshot(
            NS,
            CACHE,
            7,
            TextMap::from_entries(vec![("LOG_FILTER".to_owned(), "trace".to_owned())]),
        )
        .unwrap();
    assert_eq!(
        controller
            .apply_snapshot(
                NS,
                CACHE,
                6,
                TextMap::from_entries(vec![("LOG_FILTER".to_owned(), "stale".to_owned())])
            )
            .unwrap(),
        RuntimeUpdateOutcome::StaleSnapshotIgnored {
            current: 7,
            incoming: 6
        }
    );
    assert_eq!(
        controller.values().get("LOG_FILTER").as_deref(),
        Some("trace")
    );
}

#[test]
fn ordered_events_apply_and_revision_gap_requires_snapshot_repair() {
    let mut controller = controller();
    controller
        .apply_snapshot(NS, CACHE, 1, TextMap::new())
        .unwrap();
    let mut second = batch(2, RuntimeUpdateOperation::Upsert);
    second
        .entries
        .insert("REQUEST_TIMEOUT_MS".to_owned(), "5000".to_owned());
    assert_eq!(
        controller.apply_batch(second).unwrap(),
        RuntimeUpdateOutcome::Applied { revision: 2 }
    );
    let mut gap = batch(4, RuntimeUpdateOperation::Upsert);
    gap.entries
        .insert("REQUEST_TIMEOUT_MS".to_owned(), "9000".to_owned());
    assert_eq!(
        controller.apply_batch(gap).unwrap(),
        RuntimeUpdateOutcome::ReconcileRequired {
            current: 2,
            incoming: 4
        }
    );

    let mut would_be_next = batch(3, RuntimeUpdateOperation::Upsert);
    would_be_next
        .entries
        .insert("REQUEST_TIMEOUT_MS".to_owned(), "7000".to_owned());
    assert_eq!(
        controller.apply_batch(would_be_next).unwrap(),
        RuntimeUpdateOutcome::ReconcileRequired {
            current: 2,
            incoming: 3
        }
    );
    assert_eq!(
        controller
            .values()
            .get("REQUEST_TIMEOUT_MS")
            .as_deref(),
        Some("5000")
    );
    assert!(controller.state().stale);

    controller
        .apply_snapshot(
            NS,
            CACHE,
            4,
            TextMap::from_entries(vec![("REQUEST_TIMEOUT_MS".to_owned(), "9000".to_owned())]),
        )
        .unwrap();
    assert!(!controller.state().stale);
    assert_eq!(controller.state().revision, 4);
}

#[test]
fn forbidden_update_is_atomic_and_does_not_advance_revision() {
    let mut controller = controller();
    controller
        .apply_snapshot(NS, CACHE, 1, TextMap::new())
        .unwrap();
    let mut event = batch(2, RuntimeUpdateOperation::Upsert);
    event.entries.insert("LOG_FILTER".to_owned(), "debug".to_owned());
    event
        .entries
        .insert("DATABASE_URL".to_owned(), "synthetic".to_owned());
    assert!(controller.apply_batch(event).is_err());
    assert_eq!(controller.state().revision, 1);
    assert_eq!(
        controller.values().get("LOG_FILTER").as_deref(),
        Some("info")
    );
}

#[test]
fn replace_invalidate_and_resync_follow_backend_semantics() {
    let mut controller = controller();
    controller
        .apply_snapshot(
            NS,
            CACHE,
            1,
            TextMap::from_entries(vec![("LOG_FILTER".to_owned(), "debug".to_owned())]),
        )
        .unwrap();
    let mut replace = batch(2, RuntimeUpdateOperation::Replace);
    replace.entries.insert(
        "REQUEST_TIMEOUT_MS".to_owned(),
        "6000".to_owned(),
    );
    controller.apply_batch(replace).unwrap();
    assert_eq!(
        controller.values().get("LOG_FILTER").as_deref(),
        Some("info")
    );
    assert_eq!(
        controller
            .values()
            .get("REQUEST_TIMEOUT_MS")
            .as_deref(),
        Some("6000")
    );

    controller
        .apply_batch(batch(3, RuntimeUpdateOperation::Invalidate))
        .unwrap();
    assert_eq!(controller.values().get("REQUEST_TIMEOUT_MS"), None);

    assert_eq!(
        controller
            .apply_batch(batch(4, RuntimeUpdateOperation::Resync))
            .unwrap(),
        RuntimeUpdateOutcome::ReconcileRequired {
            current: 3,
            incoming: 4
        }
    );
    assert!(controller.state().stale);
}

#[test]
fn duplicate_event_is_idempotent() {
    let mut controller = controller();
    controller
        .apply_snapshot(NS, CACHE, 2, TextMap::new())
        .unwrap();
    assert_eq!(
        controller
            .apply_batch(batch(2, RuntimeUpdateOperation::Invalidate))
            .unwrap(),
        RuntimeUpdateOutcome::Duplicate { revision: 2 }
    );
}

#[test]
fn invalid_snapshot_is_atomic() {
    let mut controller = controller();
    controller
        .apply_snapshot(NS, CACHE, 1, TextMap::new())
        .unwrap();
    let result = controller.apply_snapshot(
        NS,
        CACHE,
        2,
        TextMap::from_entries(vec![
            ("LOG_FILTER".to_owned(), "debug".to_owned()),
            ("GITHUB_TOKEN".to_owned(), "synthetic".to_owned()),
        ]),
    );
    assert!(result.is_err());
    assert_eq!(controller.state().revision, 1);
    assert_eq!(
        controller.values().get("LOG_FILTER").as_deref(),
        Some("info")
    );
}
