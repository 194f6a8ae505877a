use ores_otel_sidecar::bind::{
    allow_non_loopback_from_env, bind_text, loopback_probe_addr, parse_bind, AddressLookup,
    SocketAddress, LOCALHOST_V4, LOCALHOST_V6,
};
use ores_otel_sidecar::config::{plan_from_env, BindPlan, SidecarConfig};
use ores_otel_sidecar::error::SidecarError;
use ores_otel_sidecar::hooks::{DefaultOverrides, SidecarOverrides};
use ores_otel_sidecar::identity::SidecarIdentity;
use ores_otel_sidecar::probe::ProductProbe;

fn v4(octets: [u8; 4], port: u16) -> AddressLookup {
    AddressLookup::Found(SocketAddress::V4 {
        octets: u32::from_be_bytes(octets),
        port,
    })
}

fn v6(segments: u128, port: u16) -> AddressLookup {
    AddressLookup::Found(SocketAddress::V6 {
        segments,
        port,
        flowinfo: 0,
        scope_id: 0,
    })
}

#[test]
fn loopback_is_accepted() {
    let addr = parse_bind("127.0.0.1:9090", false, v4([127, 0, 0, 1], 9090)).unwrap();
    assert!(addr.is_loopback());
    assert_eq!(addr.port(), 9090);
}

#[test]
fn unspecified_is_rejected_even_with_override() {
    assert!(matches!(
        parse_bind("0.0.0.0:9090", false, v4([0, 0, 0, 0], 9090)),
        Err(SidecarError::NonLoopbackBind { .. })
    ));
    assert!(matches!(
        parse_bind("[::]:9090", true, v6(0, 9090)),
        Err(SidecarError::NonLoopbackBind { .. })
    ));
}

#[test]
fn public_bind_requires_override() {
    assert!(parse_bind("1.1.1.1:9090", false, v4([1, 1, 1, 1], 9090)).is_err());
    assert!(parse_bind("1.1.1.1:9090", true, v4([1, 1, 1, 1], 9090)).is_ok());
}

#[test]
fn empty_and_garbage_fail_closed() {
    assert!(parse_bind("   ", false, AddressLookup::Failed).is_err());
    assert!(parse_bind("not-a-bind", false, AddressLookup::Failed).is_err());
    assert_eq!(
        parse_bind("   ", true, v4([127, 0, 0, 1], 1)),
        Err(SidecarError::UnresolvedBind { value: "".into() })
    );
    assert_eq!(
        parse_bind(" not-a-bind ", false, AddressLookup::Failed),
        Err(SidecarError::InvalidBind {
            value: "not-a-bind".into()
        })
    );
    assert_eq!(
        parse_bind("nowhere:1", false, AddressLookup::Missing),
        Err(SidecarError::UnresolvedBind {
            value: "nowhere:1".into()
        })
    );
    assert_eq!(
        loopback_probe_addr(" ", AddressLookup::Failed),
        Err(SidecarError::UnresolvedBind { value: " ".into() })
    );
}

#[test]
fn ipv6_loopback_is_accepted() {
    let addr = parse_bind("[::1]:9090", false, v6(1, 9090)).unwrap();
    assert!(addr.is_loopback());
    assert_eq!(addr.port(), 9090);
}

#[test]
fn whitespace_around_loopback_is_accepted() {
    assert_eq!(bind_text("  127.0.0.1:9090  "), "127.0.0.1:9090");
    let addr = parse_bind("  127.0.0.1:9090  ", false, v4([127, 0, 0, 1], 9090)).unwrap();
    assert!(addr.is_loopback());
}

#[test]
fn loopback_addresses_are_those_of_the_host() {
    let inside = |octets| match v4(octets, 1) {
        AddressLookup::Found(address) => address.is_loopback(),
        _ => false,
    };
    assert!(inside([127, 255, 255, 255]));
    assert!(inside([127, 0, 0, 0]));
    assert!(!inside([128, 0, 0, 0]));
    assert!(!inside([126, 255, 255, 255]));
    // An IPv4 loopback address inside IPv6 is a public one.
    assert!(parse_bind("x", false, v6(0xffff_7f00_0001, 1)).is_err());
}

#[test]
fn allow_non_loopback_env_is_fail_closed_and_uses_generated_key() {
    assert!(!allow_non_loopback_from_env(None));
    assert!(!allow_non_loopback_from_env(Some("false")));
    assert!(allow_non_loopback_from_env(Some("1")));
    assert!(allow_non_loopback_from_env(Some("true")));
    for on in ["TRUE", "yes", "YES", " yes\n"] {
        assert!(allow_non_loopback_from_env(Some(on)));
    }
    for off in ["", "True", "on", "0", "y"] {
        assert!(!allow_non_loopback_from_env(Some(off)));
    }
}

#[test]
fn loopback_probe_addr_rewrites_unspecified_and_keeps_port() {
    let four = loopback_probe_addr("0.0.0.0:9090", v4([0, 0, 0, 0], 9090)).unwrap();
    assert_eq!(
        four,
        SocketAddress::V4 {
            octets: LOCALHOST_V4,
            port: 9090
        }
    );
    let six = loopback_probe_addr("[::]:19090", v6(0, 19090)).unwrap();
    assert_eq!(
        six,
        SocketAddress::V6 {
            segments: LOCALHOST_V6,
            port: 19090,
            flowinfo: 0,
            scope_id: 0
        }
    );
    let already = loopback_probe_addr("127.0.0.1:9090", v4([127, 0, 0, 1], 9090)).unwrap();
    assert!(already.is_loopback());
}

#[test]
fn default_bind_is_loopback() {
    let cfg = SidecarConfig::from_bind(
        SidecarIdentity::ores_otel(),
        SidecarIdentity::DEFAULT_BIND,
        false,
        v4([127, 0, 0, 1], 9090),
    )
    .unwrap_or_else(|error| panic!("{error:?}"));
    assert!(cfg.listen.is_loopback());
    assert_eq!(cfg.listen.port(), 9090);
    assert!(cfg.runtime_update_policy().is_none());
    assert!(!cfg.runtime_values().is_mutable("LOG_FILTER"));
}

struct RefusePublicBind;

impl ProductProbe for RefusePublicBind {
    fn ready(&self) -> bool {
        false
    }
}

impl SidecarOverrides for RefusePublicBind {
    fn allow_non_loopback(&self, _from_env: bool) -> bool {
        false
    }

    fn bind_raw(&self, _raw: &str) -> String {
        "127.0.0.1:19090".into()
    }
}

#[test]
fn default_overrides_pass_values_through() {
    let hooks = DefaultOverrides;
    assert_eq!(hooks.bind_raw("127.0.0.1:9090"), "127.0.0.1:9090");
    assert!(hooks.allow_non_loopback(true));
    assert!(!hooks.allow_non_loopback(false));
    assert!(hooks.ready());
    assert!(hooks.extra_health().is_none());
}

#[test]
fn trait_impl_can_replace_bind_and_readiness() {
    let hooks = RefusePublicBind;
    assert_eq!(hooks.bind_raw("0.0.0.0:9090"), "127.0.0.1:19090");
    assert!(!hooks.allow_non_loopback(true));
    assert!(!hooks.ready());
}

#[test]
fn hooks_ready_is_the_default_probe() {
    let cfg = SidecarConfig::from_bind_with(
        SidecarIdentity::ores_otel(),
        "127.0.0.1:9090",
        false,
        RefusePublicBind,
        v4([127, 0, 0, 1], 9090),
    )
    .unwrap_or_else(|error| panic!("{error:?}"));
    assert!(!ProductProbe::ready(cfg.overrides()));
}

#[test]
fn plans_follow_the_environment_unless_the_product_overrides_them() {
    let identity = SidecarIdentity::new("ores-otel-sidecar", "ORES_OTEL_SIDECAR_TEST_BIND");
    assert_eq!(
        plan_from_env(identity, &DefaultOverrides, None, None),
        BindPlan {
            raw: "127.0.0.1:9090".into(),
            allow_non_loopback: false
        }
    );
    assert_eq!(
        plan_from_env(identity, &DefaultOverrides, Some("127.0.0.1:19191"), Some("1")),
        BindPlan {
            raw: "127.0.0.1:19191".into(),
            allow_non_loopback: true
        }
    );
    assert_eq!(
        plan_from_env(identity, &RefusePublicBind, Some("0.0.0.0:9090"), Some("1")),
        BindPlan {
            raw: "127.0.0.1:19090".into(),
            allow_non_loopback: false
        }
    );
}
