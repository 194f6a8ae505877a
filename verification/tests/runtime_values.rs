use ores_otel_sidecar::runtime_values::{
    is_sensitive_runtime_key, RuntimeValueUpdate, RuntimeValues, MAX_RUNTIME_KEYS,
};
use ores_otel_sidecar::text_map::TextMap;
use ores_otel_sidecar::{SharedRuntimeValues, SidecarError};

#[test]
fn patch_is_allowlisted_and_atomic() {
    let mut values = RuntimeValues::new(
        vec!["LOG_FILTER".to_owned(), "REQUEST_TIMEOUT_MS".to_owned()],
        vec![("LOG_FILTER".to_owned(), "info".to_owned())],
    )
    .unwrap();

    values
        .apply_patch(&[
            RuntimeValueUpdate::set("LOG_FILTER", "debug"),
            RuntimeValueUpdate::set("REQUEST_TIMEOUT_MS", "5000"),
        ])
        .unwrap();
    assert_eq!(values.get("LOG_FILTER").as_deref(), Some("debug"));

    assert!(values
        .apply_patch(&[
            RuntimeValueUpdate::set("LOG_FILTER", "trace"),
            RuntimeValueUpdate::set("NOT_ALLOWED", "1"),
        ])
        .is_err());
    assert_eq!(values.get("LOG_FILTER").as_deref(), Some("debug"));
}

#[test]
fn removing_backend_override_restores_baseline() {
    let mut values = RuntimeValues::new(
        vec!["LOG_FILTER".to_owned()],
        vec![("LOG_FILTER".to_owned(), "info".to_owned())],
    )
    .unwrap();
    values
        .apply_patch(&[RuntimeValueUpdate::set("LOG_FILTER", "debug")])
        .unwrap();
    assert_eq!(values.get("LOG_FILTER").as_deref(), Some("debug"));
    values
        .apply_patch(&[RuntimeValueUpdate::remove("LOG_FILTER")])
        .unwrap();
    assert_eq!(values.get("LOG_FILTER").as_deref(), Some("info"));
}

#[test]
fn full_override_replacement_is_bounded_by_state_not_operation_count() {
    let keys = (0..MAX_RUNTIME_KEYS)
        .map(|index| format!("FEATURE_{index}"))
        .collect::<Vec<_>>();
    let mut values = RuntimeValues::new(keys.clone(), Vec::new()).unwrap();
    let first = TextMap::from_entries(
        keys.iter()
            .map(|key| (key.clone(), "one".to_owned()))
            .collect::<Vec<_>>(),
    );
    values.replace_overrides(&first).unwrap();
    let second = TextMap::from_entries(
        keys.iter()
            .map(|key| (key.clone(), "two".to_owned()))
            .collect::<Vec<_>>(),
    );
    values.replace_overrides(&second).unwrap();
    assert_eq!(values.get("FEATURE_63").as_deref(), Some("two"));
}

#[test]
fn clones_share_overrides_but_not_process_environment() {
    let values = RuntimeValues::new(vec!["LOG_FILTER".to_owned()], Vec::new()).unwrap();
    let values = SharedRuntimeValues::new(values);
    let clone = values.clone();
    values
        .apply_patch(&[RuntimeValueUpdate::set("LOG_FILTER", "trace")])
        .unwrap();
    assert_eq!(clone.get("LOG_FILTER").as_deref(), Some("trace"));
}

fn crosses_threads<T: Send + Sync>(_value: &T) {}

#[test]
fn handles_read_and_patch_one_state() {
    let values = RuntimeValues::new(
        vec!["A".to_owned(), "B".to_owned()],
        vec![("A".to_owned(), "base".to_owned())],
    )
    .unwrap();
    let one = SharedRuntimeValues::new(values);
    let two = one.clone();
    crosses_threads(&one);
    two.apply_patch(&[
        RuntimeValueUpdate::set("A", "over"),
        RuntimeValueUpdate::set("B", "b"),
    ])
    .unwrap();
    assert_eq!(one.snapshot(), two.snapshot());
    assert_eq!(one.snapshot().len(), 2);
    one.apply_patch(&[RuntimeValueUpdate::remove("A")]).unwrap();
    assert_eq!(two.get("A").as_deref(), Some("base"));
    assert_eq!(
        two.apply_patch(&[
            RuntimeValueUpdate::remove("B"),
            RuntimeValueUpdate::set("C", "c"),
        ]),
        Err(SidecarError::RuntimeUpdateRejected { key: "C".into() })
    );
    assert_eq!(one.get("B").as_deref(), Some("b"));
    assert!(one.is_mutable("B") && !one.is_mutable("C"));
    assert_eq!(two.mutable_keys().members(), vec!["A", "B"]);
}

#[test]
fn secret_like_keys_are_never_runtime_mutable() {
    for key in [
        "DATABASE_URL",
        "REDIS_URL",
        "GITHUB_TOKEN",
        "API_KEY",
        "SESSION_COOKIE",
    ] {
        assert!(is_sensitive_runtime_key(key), "{key}");
    }
    assert!(!is_sensitive_runtime_key("LOG_FILTER"));
}
