use ores_otel_sidecar::error::SidecarError;
use ores_otel_sidecar::runtime_updates::{
    valid_keyspace_segment, RuntimeUpdateBatch, RuntimeUpdateController, RuntimeUpdateOperation,
    RuntimeUpdateOutcome, RuntimeUpdateState, RuntimeUpdateTarget, MAX_SAFE_RUNTIME_REVISION,
};
use ores_otel_sidecar::runtime_values::{
    is_sensitive_runtime_key, validate_runtime_key, RuntimeValueUpdate, RuntimeValues,
    MAX_RUNTIME_KEYS, MAX_RUNTIME_VALUE_BYTES,
};
use ores_otel_sidecar::text_map::{TextMap, TextSet};

fn rejected(key: &str) -> SidecarError {
    SidecarError::RuntimeUpdateRejected {
        key: key.to_owned(),
    }
}

fn config(reason: &'static str) -> SidecarError {
    SidecarError::InvalidConfig { reason }
}

fn entries(pairs: &[(&str, &str)]) -> TextMap<String> {
    TextMap::from_entries(
        pairs
            .iter()
            .map(|(key, value)| ((*key).to_owned(), (*value).to_owned()))
            .collect(),
    )
}

fn values() -> RuntimeValues {
    RuntimeValues::new(
        vec!["A".to_owned(), "B".to_owned(), "C".to_owned()],
        vec![("A".to_owned(), "base".to_owned())],
    )
    .unwrap()
}

fn controller() -> RuntimeUpdateController {
    RuntimeUpdateController::for_target(values(), "ns", "cache").unwrap()
}

fn event(revision: u64, operation: RuntimeUpdateOperation) -> RuntimeUpdateBatch {
    RuntimeUpdateBatch::new("ns", "cache", revision, operation)
}

#[test]
fn keys_have_their_shape() {
    for key in ["A", "_", "_A1", "LOG_FILTER", "FEATURE_FLAGS_JSON", "KEYS"] {
        assert_eq!(validate_runtime_key(key), Ok(()), "{key}");
    }
    for key in ["", "1A", "a", "A-B", "A B", "\u{c4}", "TOKEN", "A_PASS_B"] {
        assert_eq!(validate_runtime_key(key), Err(rejected(key)), "{key}");
    }
    assert!(validate_runtime_key(&"A".repeat(128)).is_ok());
    assert!(validate_runtime_key(&"A".repeat(129)).is_err());
}

#[test]
fn secret_words_are_found_between_underscores() {
    for key in [
        "A_DSN",
        "A_KEY",
        "PASSWORD",
        "A_PASS",
        "TOKEN_A",
        "A_SECRET_B",
        "CREDENTIAL",
        "CREDENTIALS",
        "COOKIE",
        "PRIVATE",
        "AUTHORIZATION",
        "REDIS_URL",
    ] {
        assert!(is_sensitive_runtime_key(key), "{key}");
    }
    for key in ["", "KEY", "DSN", "TOKENS", "MY_REDIS_URL", "COMPASS", "_"] {
        assert!(!is_sensitive_runtime_key(key), "{key}");
    }
}

#[test]
fn allowlists_and_baselines_are_unique_and_bounded() {
    let keys = |n: usize| (0..n).map(|i| format!("K{i}")).collect::<Vec<_>>();
    assert!(RuntimeValues::new(keys(MAX_RUNTIME_KEYS), Vec::new()).is_ok());
    assert_eq!(
        RuntimeValues::new(keys(MAX_RUNTIME_KEYS + 1), Vec::new()).err(),
        Some(config("runtime mutable keys must be unique and bounded"))
    );
    assert_eq!(
        RuntimeValues::new(vec!["A".to_owned(), "A".to_owned()], Vec::new()).err(),
        Some(config("runtime mutable keys must be unique and bounded"))
    );
    assert_eq!(
        RuntimeValues::new(vec!["A".to_owned(), "a".to_owned()], Vec::new()).err(),
        Some(rejected("a"))
    );
    let pair = || ("A".to_owned(), "1".to_owned());
    assert_eq!(
        RuntimeValues::new(vec!["A".to_owned()], vec![pair(), pair()]).err(),
        Some(config("runtime baseline values must be unique and bounded"))
    );
    assert_eq!(
        RuntimeValues::new(vec!["B".to_owned()], vec![pair()]).err(),
        Some(rejected("A"))
    );
}

#[test]
fn patches_are_keywise_and_atomic() {
    let mut values = values();
    values
        .apply_patch(&[
            RuntimeValueUpdate::set("A", "over"),
            RuntimeValueUpdate::set("B", "b"),
        ])
        .unwrap();
    values
        .apply_patch(&[
            RuntimeValueUpdate::remove("A"),
            RuntimeValueUpdate::set("C", "c"),
        ])
        .unwrap();
    assert_eq!(values.get("A").as_deref(), Some("base"));
    assert_eq!(values.get("B").as_deref(), Some("b"));
    assert_eq!(values.get("C").as_deref(), Some("c"));
    let before = values.snapshot();
    let big = "x".repeat(MAX_RUNTIME_VALUE_BYTES + 1);
    let many = vec![RuntimeValueUpdate::remove("A"); MAX_RUNTIME_KEYS + 1];
    assert_eq!(
        values.apply_patch(&many),
        Err(config("runtime patch exceeds the bounded key count"))
    );
    for patch in [
        vec![
            RuntimeValueUpdate::set("B", "1"),
            RuntimeValueUpdate::remove("B"),
        ],
        vec![
            RuntimeValueUpdate::set("A", "1"),
            RuntimeValueUpdate::set("B", &big),
        ],
    ] {
        assert_eq!(values.apply_patch(&patch), Err(rejected("B")));
        assert_eq!(values.snapshot(), before);
    }
    assert!(values
        .apply_patch(&[RuntimeValueUpdate::set("B", &big[1..])])
        .is_ok());
    assert_eq!(
        values.mutable_keys().members(),
        vec!["A".to_owned(), "B".to_owned(), "C".to_owned()]
    );
    assert!(RuntimeValues::default().snapshot().is_empty());
}

#[test]
fn replacements_name_the_first_rejected_key() {
    let mut values = values();
    let next = entries(&[("Z", "1"), ("B", "1"), ("M", "1")]);
    assert_eq!(values.replace_overrides(&next), Err(rejected("M")));
    assert_eq!(values.get("B"), None);
    let many = TextMap::from_entries(
        (0..MAX_RUNTIME_KEYS + 1)
            .map(|i| (format!("K{i}"), String::new()))
            .collect(),
    );
    assert_eq!(
        values.replace_overrides(&many),
        Err(config("runtime override set exceeds the bounded key count"))
    );
    values.replace_overrides(&entries(&[("B", "1")])).unwrap();
    values.replace_overrides(&entries(&[("C", "1")])).unwrap();
    assert_eq!(values.get("B"), None);
}

#[test]
fn keyspaces_have_their_grammar() {
    assert!(valid_keyspace_segment("A-z_0.9"));
    assert!(valid_keyspace_segment(&"a".repeat(64)));
    for segment in ["", "a/b", "a b", "\u{e9}"] {
        assert!(!valid_keyspace_segment(segment));
    }
    assert!(!valid_keyspace_segment(&"a".repeat(65)));
    assert_eq!(
        RuntimeUpdateTarget::new("a", "b/c"),
        Err(config("runtime update keyspace is invalid"))
    );
    assert!(RuntimeUpdateController::for_target(values(), "", "b").is_err());
    let target = controller();
    assert_eq!(target.target().unwrap().namespace, "ns");
    assert!(RuntimeUpdateController::new(values()).target().is_none());
}

#[test]
fn every_malformed_update_is_refused_without_a_trace() {
    let mut controller = controller();
    controller
        .apply_snapshot("ns", "cache", 1, entries(&[("B", "b")]))
        .unwrap();
    let before = controller.state();
    assert_eq!(before.backend_key_count, 1);
    let with_keys = |operation, keys: &[&str]| {
        let mut batch = event(2, operation);
        batch.keys = keys.iter().map(|key| (*key).to_owned()).collect();
        batch
    };
    let with_entries = |operation, pairs: &[(&str, &str)]| {
        let mut batch = event(2, operation);
        batch.entries = entries(pairs);
        batch
    };
    let mut other = event(2, RuntimeUpdateOperation::Invalidate);
    other.cache = "other".to_owned();
    let payload = "runtime event operation payload is invalid";
    let cases = vec![
        (
            other,
            config("runtime update target does not match configured keyspace"),
        ),
        (
            event(0, RuntimeUpdateOperation::Invalidate),
            config("runtime event revision is invalid"),
        ),
        (
            event(
                MAX_SAFE_RUNTIME_REVISION + 1,
                RuntimeUpdateOperation::Invalidate,
            ),
            config("runtime event revision is invalid"),
        ),
        (event(2, RuntimeUpdateOperation::Upsert), config(payload)),
        (event(2, RuntimeUpdateOperation::Delete), config(payload)),
        (
            with_entries(RuntimeUpdateOperation::Invalidate, &[("A", "1")]),
            config(payload),
        ),
        (
            with_keys(RuntimeUpdateOperation::Replace, &["A"]),
            config(payload),
        ),
        (
            with_keys(RuntimeUpdateOperation::Delete, &["A", "B", "A"]),
            config("runtime delete event contains duplicate keys"),
        ),
        (
            with_keys(RuntimeUpdateOperation::Delete, &["B", "Z"]),
            rejected("Z"),
        ),
        (
            with_entries(RuntimeUpdateOperation::Upsert, &[("Z", "1"), ("Y", "1")]),
            rejected("Y"),
        ),
        (
            with_entries(RuntimeUpdateOperation::Replace, &[("API_KEY", "1")]),
            rejected("API_KEY"),
        ),
    ];
    for (batch, error) in cases {
        assert_eq!(controller.apply_batch(batch), Err(error));
        assert_eq!(controller.state(), before);
        assert_eq!(controller.values().get("B").as_deref(), Some("b"));
    }
    let many = TextMap::from_entries(
        (0..MAX_RUNTIME_KEYS + 1)
            .map(|i| (format!("K{i}"), String::new()))
            .collect(),
    );
    let mut oversized = event(2, RuntimeUpdateOperation::Upsert);
    oversized.entries = many.clone();
    assert_eq!(
        controller.apply_batch(oversized),
        Err(config("runtime event exceeds the bounded key count"))
    );
    assert_eq!(
        controller.apply_snapshot("ns", "cache", 2, many),
        Err(config("runtime snapshot exceeds the bounded key count"))
    );
    for (revision, pairs) in [(MAX_SAFE_RUNTIME_REVISION + 1, entries(&[])), (0, entries(&[("A", "1")]))] {
        assert_eq!(
            controller.apply_snapshot("ns", "cache", revision, pairs),
            Err(config("runtime snapshot revision is invalid"))
        );
    }
    assert_eq!(
        RuntimeUpdateController::new(values()).apply_batch(event(1, RuntimeUpdateOperation::Resync)),
        Err(config("runtime update target is not configured"))
    );
}

#[test]
fn stale_controllers_wait_for_a_snapshot() {
    let mut controller = controller();
    let resync = controller.apply_batch(event(1, RuntimeUpdateOperation::Resync));
    assert_eq!(
        resync,
        Ok(RuntimeUpdateOutcome::ReconcileRequired {
            current: 0,
            incoming: 1
        })
    );
    let stale = RuntimeUpdateState {
        revision: 0,
        stale: true,
        backend_key_count: 0,
    };
    assert_eq!(controller.state(), stale);
    for revision in 1..4 {
        assert_eq!(
            controller.apply_batch(event(revision, RuntimeUpdateOperation::Invalidate)),
            Ok(RuntimeUpdateOutcome::ReconcileRequired {
                current: 0,
                incoming: revision
            })
        );
        assert_eq!(controller.state(), stale);
    }
    assert_eq!(
        controller.apply_snapshot("ns", "cache", 0, entries(&[])),
        Ok(RuntimeUpdateOutcome::Applied { revision: 0 })
    );
    assert_eq!(controller.state(), RuntimeUpdateState::default());
}

#[test]
fn controllers_agree_after_a_snapshot() {
    let mut one = controller();
    let mut two = controller();
    let mut upsert = event(1, RuntimeUpdateOperation::Upsert);
    upsert.entries = entries(&[("A", "x"), ("B", "y")]);
    one.apply_batch(upsert).unwrap();
    let mut delete = event(2, RuntimeUpdateOperation::Delete);
    delete.keys = vec!["A".to_owned(), "C".to_owned()];
    one.apply_batch(delete).unwrap();
    assert_eq!(one.values().get("A").as_deref(), Some("base"));
    assert_eq!(one.state().backend_key_count, 1);
    two.apply_batch(event(9, RuntimeUpdateOperation::Invalidate))
        .unwrap();
    assert!(two.state().stale);
    for controller in [&mut one, &mut two] {
        for _ in 0..2 {
            assert_eq!(
                controller.apply_snapshot("ns", "cache", 5, entries(&[("C", "z")])),
                Ok(RuntimeUpdateOutcome::Applied { revision: 5 })
            );
        }
    }
    assert_eq!(one.state(), two.state());
    assert_eq!(one.values().snapshot(), two.values().snapshot());
}

#[test]
fn maps_and_sets_keep_their_order() {
    let mut map = entries(&[("b", "1"), ("a", "1"), ("ab", "1"), ("a", "2"), ("", "0")]);
    let keys = |map: &TextMap<String>| {
        map.entries()
            .iter()
            .map(|(key, _)| key.clone())
            .collect::<Vec<_>>()
    };
    assert_eq!(keys(&map), vec!["", "a", "ab", "b"]);
    assert_eq!(map.get("a").map(String::as_str), Some("2"));
    map.remove("ab");
    map.remove("zz");
    assert_eq!(map.len(), 3);
    assert!(!map.contains_key("ab"));
    let mut set = TextSet::keys_of(&map);
    set.insert("\u{1f600}".to_owned());
    set.insert("\u{ffff}".to_owned());
    set.insert("a".to_owned());
    set.remove("");
    assert_eq!(set.members(), vec!["a", "b", "\u{ffff}", "\u{1f600}"]);
    assert_eq!(set.len(), 4);
    assert!(set.clone().contains("b"));
}
