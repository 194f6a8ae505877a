//! Who a sidecar is, and the environment keys that it reads.

use vstd::prelude::*;

verus! {

pub const SERVICE: &'static str = "ores-otel-sidecar";

pub const BIND: &'static str = "ORES_OTEL_SIDECAR_BIND";

pub const BIND_DEFAULT: &'static str = "127.0.0.1:9090";

pub const ALLOW_NON_LOOPBACK: &'static str = "ORES_OTEL_SIDECAR_ALLOW_NON_LOOPBACK";

pub const ALLOW_NON_LOOPBACK_DEFAULT: &'static str = "false";

/// The names of the environment keys of this sidecar.
#[derive(Clone, Copy, Debug, PartialEq, Eq)]
pub struct SidecarEnv {
    pub bind: &'static str,
    pub allow_non_loopback: &'static str,
}

impl SidecarEnv {
    pub fn keys() -> (keys: Self)
        ensures
            keys.bind@ == BIND@,
            keys.allow_non_loopback@ == ALLOW_NON_LOOPBACK@,
    {
        SidecarEnv { bind: BIND, allow_non_loopback: ALLOW_NON_LOOPBACK }
    }
}

/// Product identity for a sidecar that inherits this crate.
#[derive(Clone, Copy, Debug, PartialEq, Eq)]
pub struct SidecarIdentity {
    pub service: &'static str,
    pub bind_env: &'static str,
    pub default_bind: &'static str,
}

impl SidecarIdentity {
    pub const DEFAULT_BIND: &'static str = BIND_DEFAULT;

    /// The identity of the plain sidecar.
    pub fn ores_otel() -> (identity: Self)
        ensures
            identity.service@ == SERVICE@,
            identity.bind_env@ == BIND@,
            identity.default_bind@ == BIND_DEFAULT@,
    {
        SidecarIdentity::new(SERVICE, BIND)
    }

    pub fn new(service: &'static str, bind_env: &'static str) -> (identity: Self)
        ensures
            identity.service == service,
            identity.bind_env == bind_env,
            identity.default_bind@ == Self::DEFAULT_BIND@,
    {
        SidecarIdentity { service, bind_env, default_bind: Self::DEFAULT_BIND }
    }
}

} // verus!
