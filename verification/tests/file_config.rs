use ores_otel_sidecar::bind::{AddressLookup, SocketAddress, LOCALHOST_V4};
use ores_otel_sidecar::config::SidecarConfig;
use ores_otel_sidecar::error::SidecarError;
use ores_otel_sidecar::file_config::{
    decode, OresSidecarFile, RuntimeUpdateMode, RuntimeUpdatePolicy, RuntimeUpdateProvider,
    RuntimeValueDefinition, SidecarDefinition, CONFIG_PROTOCOL, MAX_CONFIG_FILE_BYTES,
    MAX_SIDECARS,
};
use ores_otel_sidecar::identity::SidecarIdentity;
use ores_otel_sidecar::{SharedRuntimeValues, DEFAULT_SIDECAR_CONFIG_PATH};

fn policy(name: &str) -> RuntimeUpdatePolicy {
    RuntimeUpdatePolicy {
        provider: RuntimeUpdateProvider::OresRedisLruCache,
        mode: RuntimeUpdateMode::ReceiveOnly,
        poll_seconds: 180,
        namespace: name.to_owned(),
        cache: "runtime-env".to_owned(),
    }
}

fn sidecar(id: &str) -> SidecarDefinition {
    SidecarDefinition {
        id: id.to_owned(),
        path: Some(".".to_owned()),
        startup_config: None,
        runtime_updates: policy(id),
        runtime_mutable: vec!["LOG_FILTER".to_owned()],
        values: vec![RuntimeValueDefinition {
            key: "LOG_FILTER".to_owned(),
            value: "info".to_owned(),
        }],
    }
}

fn file(sidecars: Vec<SidecarDefinition>) -> OresSidecarFile {
    OresSidecarFile {
        schema: CONFIG_PROTOCOL.to_owned(),
        sidecars,
    }
}

fn reason(result: Result<(), SidecarError>) -> &'static str {
    match result {
        Err(SidecarError::InvalidConfig { reason }) => reason,
        other => panic!("{other:?}"),
    }
}

#[test]
fn a_file_resolves_each_sidecar_it_names() {
    let mut second = sidecar("second-sidecar");
    second.path = Some("../second".to_owned());
    second.startup_config = Some("other.toml".to_owned());
    second.runtime_updates.provider = RuntimeUpdateProvider::Disabled;
    second.runtime_updates.mode = RuntimeUpdateMode::Disabled;
    let config = file(vec![sidecar("ores-otel-sidecar"), second]);
    assert_eq!(config.validate(), Ok(()));

    let first = config.resolve("ores-otel-sidecar").unwrap();
    assert_eq!(first.definition.path.as_deref(), Some("."));
    assert_eq!(first.definition.startup_config(), ".cli-flags.toml");
    assert!(first.runtime_values.is_mutable("LOG_FILTER"));
    assert_eq!(
        first.runtime_values.get("LOG_FILTER").as_deref(),
        Some("info")
    );
    assert!(first.definition.runtime_updates.is_enabled());
    assert!(first
        .definition
        .runtime_updates
        .accepts_keyspace("ores-otel-sidecar", "runtime-env"));
    assert!(!first
        .definition
        .runtime_updates
        .accepts_keyspace("ores-otel-sidecar", "other"));

    let second = config.resolve("second-sidecar").unwrap();
    assert_eq!(second.definition.path.as_deref(), Some("../second"));
    assert_eq!(second.definition.startup_config(), "other.toml");
    assert!(!second.definition.runtime_updates.is_enabled());

    assert!(matches!(
        config.resolve("third"),
        Err(SidecarError::MissingSidecar { service }) if service == "third"
    ));
}

#[test]
fn a_configuration_takes_its_own_sidecar() {
    let lookup = AddressLookup::Found(SocketAddress::V4 {
        octets: LOCALHOST_V4,
        port: 9090,
    });
    let config = || {
        SidecarConfig::from_bind(
            SidecarIdentity::ores_otel(),
            SidecarIdentity::DEFAULT_BIND,
            false,
            lookup,
        )
        .unwrap_or_else(|error| panic!("{error:?}"))
    };
    let attached = config()
        .with_sidecar_file(&file(vec![sidecar("ores-otel-sidecar")]))
        .unwrap_or_else(|error| panic!("{error:?}"));
    assert!(attached.runtime_values().is_mutable("LOG_FILTER"));
    assert_eq!(attached.runtime_update_policy().unwrap().poll_seconds, 180);
    assert_eq!(
        attached.into_runtime_values().get("LOG_FILTER").as_deref(),
        Some("info")
    );
    let absent = config()
        .with_optional_sidecar_file(None)
        .unwrap_or_else(|error| panic!("{error:?}"));
    assert!(absent.runtime_update_policy().is_none());
    assert!(matches!(
        config().with_optional_sidecar_file(Some(&file(vec![sidecar("other")]))),
        Err(SidecarError::MissingSidecar { .. })
    ));
}

#[test]
fn every_fault_of_a_file_is_reported() {
    let mut other_schema = file(vec![sidecar("a")]);
    other_schema.schema = "ores.sidecar/config/v2".to_owned();
    assert_eq!(
        reason(other_schema.validate()),
        "unsupported sidecar config schema"
    );
    assert_eq!(
        reason(file(Vec::new()).validate()),
        "sidecar list must be non-empty and bounded"
    );
    let many = (0..MAX_SIDECARS + 1)
        .map(|index| sidecar(&format!("s{index}")))
        .collect::<Vec<_>>();
    assert_eq!(
        reason(file(many).validate()),
        "sidecar list must be non-empty and bounded"
    );
    assert_eq!(
        reason(file(vec![sidecar("a/b")]).validate()),
        "sidecar identity has an invalid shape"
    );
    assert_eq!(
        reason(file(vec![sidecar("a"), sidecar("a")]).validate()),
        "sidecar identities must be unique"
    );
    let mut empty_path = sidecar("a");
    empty_path.path = Some(String::new());
    assert_eq!(
        reason(file(vec![empty_path]).validate()),
        "sidecar path fields cannot be empty"
    );
    let mut empty_startup = sidecar("a");
    empty_startup.startup_config = Some(String::new());
    assert_eq!(
        reason(file(vec![empty_startup]).validate()),
        "sidecar path fields cannot be empty"
    );
    for seconds in [59, 181] {
        let mut slow = sidecar("a");
        slow.runtime_updates.poll_seconds = seconds;
        assert_eq!(
            reason(file(vec![slow]).validate()),
            "runtime update policy is outside Redis-LRU-compatible bounds"
        );
    }
    let mut keyspace = sidecar("a");
    keyspace.runtime_updates.cache = "a:b".to_owned();
    assert_eq!(
        reason(file(vec![keyspace]).validate()),
        "runtime update policy is outside Redis-LRU-compatible bounds"
    );
    let mut mixed = sidecar("a");
    mixed.runtime_updates.mode = RuntimeUpdateMode::Disabled;
    assert_eq!(
        reason(file(vec![mixed]).validate()),
        "runtime update provider and mode are incompatible"
    );
    let mut secret = sidecar("a");
    secret.runtime_mutable.push("GITHUB_TOKEN".to_owned());
    assert_eq!(
        file(vec![secret]).validate(),
        Err(SidecarError::RuntimeUpdateRejected {
            key: "GITHUB_TOKEN".to_owned()
        })
    );
}

#[test]
fn texts_are_bounded_and_decoded() {
    assert_eq!(decode("schéma".as_bytes()).as_deref(), Ok("schéma"));
    assert_eq!(
        decode(&[0xff, 0xfe]),
        Err(SidecarError::InvalidConfig {
            reason: "sidecar config must be UTF-8"
        })
    );
    assert!(decode(&vec![b'a'; MAX_CONFIG_FILE_BYTES]).is_ok());
    assert_eq!(
        decode(&vec![b'a'; MAX_CONFIG_FILE_BYTES + 1]),
        Err(SidecarError::InvalidConfig {
            reason: "sidecar config exceeds the size limit"
        })
    );
}

#[test]
fn parsed_files_are_admitted_or_refused() {
    assert_eq!(
        OresSidecarFile::parse("text", None),
        Err(SidecarError::InvalidConfig {
            reason: "sidecar config is not valid TOML"
        })
    );
    let long = "#".repeat(MAX_CONFIG_FILE_BYTES + 1);
    assert_eq!(
        OresSidecarFile::parse(&long, Some(file(vec![sidecar("a")]))),
        Err(SidecarError::InvalidConfig {
            reason: "sidecar config exceeds the size limit"
        })
    );
    assert_eq!(
        OresSidecarFile::parse("text", Some(file(vec![sidecar("a")]))),
        Ok(file(vec![sidecar("a")]))
    );
    assert!(OresSidecarFile::parse("text", Some(file(Vec::new()))).is_err());
}

fn root_file() -> OresSidecarFile {
    let mut root = sidecar("ores-otel-sidecar");
    root.startup_config = Some(".cli-flags.toml".to_owned());
    root.runtime_mutable = vec!["LOG_FILTER".to_owned(), "REQUEST_TIMEOUT_MS".to_owned()];
    file(vec![root])
}

#[test]
fn root_config_is_valid_and_resolves_shared_runtime() {
    let config = OresSidecarFile::parse("text", Some(root_file())).unwrap();
    let resolved = config.resolve("ores-otel-sidecar").unwrap();
    assert_eq!(resolved.definition.path.as_deref(), Some("."));
    assert_eq!(resolved.definition.startup_config(), ".cli-flags.toml");
    assert!(resolved.runtime_values.is_mutable("LOG_FILTER"));
    assert!(resolved.definition.runtime_updates.is_enabled());
    assert!(resolved
        .definition
        .runtime_updates
        .accepts_keyspace("ores-otel-sidecar", "runtime-env"));
}

#[test]
fn one_file_can_address_multiple_sidecars_independently() {
    let mut first = sidecar("first-sidecar");
    first.runtime_updates.provider = RuntimeUpdateProvider::Disabled;
    first.runtime_updates.mode = RuntimeUpdateMode::Disabled;
    let mut second = sidecar("second-sidecar");
    second.path = Some("../second".to_owned());
    second.runtime_mutable = vec!["FEATURE_FLAGS_JSON".to_owned()];
    second.values = Vec::new();
    let config = OresSidecarFile::parse("text", Some(file(vec![first, second]))).unwrap();
    assert_eq!(config.sidecars.len(), 2);
    let first = config.resolve("first-sidecar").unwrap();
    assert!(!first.definition.runtime_updates.is_enabled());
    let second = config.resolve("second-sidecar").unwrap();
    assert_eq!(second.definition.path.as_deref(), Some("../second"));
    assert!(second.runtime_values.is_mutable("FEATURE_FLAGS_JSON"));
    assert!(second.definition.runtime_updates.is_enabled());
    assert!(second
        .definition
        .runtime_updates
        .accepts_keyspace("second-sidecar", "runtime-env"));
}

#[test]
fn duplicate_sidecar_identity_fails_closed() {
    let twice = file(vec![sidecar("same"), sidecar("same")]);
    assert!(OresSidecarFile::parse("text", Some(twice)).is_err());
}

#[test]
fn secret_like_runtime_key_fails_closed() {
    for key in ["DATABASE_URL", "GITHUB_TOKEN", "API_KEY"] {
        let mut secret = sidecar("a");
        secret.runtime_mutable.push(key.to_owned());
        assert!(OresSidecarFile::parse("text", Some(file(vec![secret]))).is_err());
    }
}

#[test]
fn redis_keyspace_and_poll_limits_fail_closed() {
    let mut keyspace = sidecar("a");
    keyspace.runtime_updates.namespace = "ores-otel-sidecar/runtime".to_owned();
    let mut slow = sidecar("a");
    slow.runtime_updates.poll_seconds = 181;
    for invalid in [keyspace, slow] {
        assert!(OresSidecarFile::parse("text", Some(file(vec![invalid]))).is_err());
    }
}

#[test]
fn root_sidecar_file_attaches_runtime_policy() {
    let lookup = AddressLookup::Found(SocketAddress::V4 {
        octets: LOCALHOST_V4,
        port: 9090,
    });
    let cfg = SidecarConfig::from_bind(
        SidecarIdentity::ores_otel(),
        SidecarIdentity::DEFAULT_BIND,
        false,
        lookup,
    )
    .and_then(|config| config.with_sidecar_file(&root_file()))
    .unwrap_or_else(|error| panic!("{error:?}"));
    assert!(cfg.runtime_values().is_mutable("LOG_FILTER"));
    assert_eq!(cfg.runtime_update_policy().unwrap().poll_seconds, 180);

    let (serving, values) = cfg.split_runtime_values();
    assert_eq!(serving.listen.port(), 9090);
    assert_eq!(serving.runtime_update_policy().unwrap().poll_seconds, 180);
    assert!(!serving.runtime_values().is_mutable("LOG_FILTER"));
    let handle = SharedRuntimeValues::new(values);
    assert_eq!(DEFAULT_SIDECAR_CONFIG_PATH, ".ores-sidecar.toml");
    assert!(handle.is_mutable("REQUEST_TIMEOUT_MS"));
    assert_eq!(handle.get("LOG_FILTER").as_deref(), Some("info"));
}
