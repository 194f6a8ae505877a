use ores_otel_sidecar::error::SidecarError;
use ores_otel_sidecar::identity::{
    SidecarEnv, SidecarIdentity, ALLOW_NON_LOOPBACK, ALLOW_NON_LOOPBACK_DEFAULT, BIND,
    BIND_DEFAULT, SERVICE,
};

#[test]
fn ores_otel_identity_uses_generated_env_keys() {
    assert_eq!(SidecarIdentity::ores_otel().service, SERVICE);
    assert_eq!(SidecarIdentity::ores_otel().bind_env, BIND);
    assert_eq!(SidecarIdentity::ores_otel().default_bind, BIND_DEFAULT);
    assert_eq!(SidecarIdentity::DEFAULT_BIND, "127.0.0.1:9090");
    assert_eq!(SidecarEnv::keys().bind, BIND);
    assert_eq!(SidecarEnv::keys().allow_non_loopback, ALLOW_NON_LOOPBACK);
    assert_eq!(ALLOW_NON_LOOPBACK_DEFAULT, "false");
}

#[test]
fn product_identities_keep_the_default_bind() {
    let identity = SidecarIdentity::new("product-sidecar", "PRODUCT_SIDECAR_BIND");
    assert_eq!(identity.service, "product-sidecar");
    assert_eq!(identity.bind_env, "PRODUCT_SIDECAR_BIND");
    assert_eq!(identity.default_bind, "127.0.0.1:9090");
    assert_eq!(
        SidecarEnv::keys().allow_non_loopback,
        "ORES_OTEL_SIDECAR_ALLOW_NON_LOOPBACK"
    );
    assert_eq!(SERVICE, "ores-otel-sidecar");
}

#[test]
fn non_loopback_message_names_generated_override() {
    let err = SidecarError::NonLoopbackBind {
        value: "0.0.0.0:9090".into(),
    };
    let shown = err.message();
    assert!(shown.contains(ALLOW_NON_LOOPBACK), "{shown}");
    assert!(shown.contains("0.0.0.0:9090"), "{shown}");
}

#[test]
fn every_error_has_its_message() {
    let cases = vec![
        (
            SidecarError::InvalidBind {
                value: "a\"b".into(),
            },
            "invalid bind address \"a\\\"b\"",
        ),
        (
            SidecarError::UnresolvedBind { value: "".into() },
            "bind address \"\" did not resolve",
        ),
        (
            SidecarError::NonLoopbackBind {
                value: "1.1.1.1:1".into(),
            },
            "refusing non-loopback bind \"1.1.1.1:1\"; set ORES_OTEL_SIDECAR_ALLOW_NON_LOOPBACK=1 to override",
        ),
        (
            SidecarError::InvalidConfig { reason: "why" },
            "invalid sidecar config: why",
        ),
        (
            SidecarError::MissingSidecar {
                service: "x".into(),
            },
            "no sidecar is configured for \"x\"",
        ),
        (
            SidecarError::RuntimeUpdateRejected { key: "K\n".into() },
            "runtime update rejected for \"K\\n\"",
        ),
        (
            SidecarError::RuntimeStateUnavailable,
            "runtime state is unavailable",
        ),
        (
            SidecarError::Io {
                message: "gone".into(),
            },
            "gone",
        ),
    ];
    for (error, message) in cases {
        assert_eq!(error.message(), message);
    }
}
