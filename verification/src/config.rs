//! The configuration of one sidecar process.

use crate::bind::{
    allow_non_loopback_from_env, bind_fault, parse_bind, switched_on, AddressLookup, SocketAddress,
};
use crate::error::{reports, SidecarError};
use crate::file_config::{first_with_id, OresSidecarFile, RuntimeUpdatePolicy};
use crate::hooks::{DefaultOverrides, SidecarOverrides};
use crate::identity::SidecarIdentity;
use crate::runtime_values::{RuntimeLayers, RuntimeValues};
use vstd::prelude::*;

verus! {

pub struct SidecarConfig<O> {
    pub identity: SidecarIdentity,
    pub listen: SocketAddress,
    overrides: O,
    runtime_values: RuntimeValues,
    runtime_updates: Option<RuntimeUpdatePolicy>,
}

/// What is known of a configuration.
#[verifier::ext_equal]
pub struct ConfigModel<O> {
    pub identity: SidecarIdentity,
    pub listen: SocketAddress,
    pub overrides: O,
    pub layers: RuntimeLayers,
    pub policy: Option<RuntimeUpdatePolicy>,
}

impl<O> View for SidecarConfig<O> {
    type V = ConfigModel<O>;

    closed spec fn view(&self) -> ConfigModel<O> {
        ConfigModel {
            identity: self.identity,
            listen: self.listen,
            overrides: self.overrides,
            layers: self.runtime_values@,
            policy: self.runtime_updates,
        }
    }
}

/// Runtime values of which none can be set.
pub open spec fn no_layers() -> RuntimeLayers {
    RuntimeLayers { mutable: Set::empty(), baseline: Map::empty(), overrides: Map::empty() }
}

/// A configuration without a sidecar file: no value can be set at run time.
pub open spec fn bare<O>(
    identity: SidecarIdentity,
    listen: SocketAddress,
    overrides: O,
) -> ConfigModel<O> {
    ConfigModel {
        identity,
        listen,
        overrides,
        layers: no_layers(),
        policy: None,
    }
}

/// The address and the permission that a product settles on.
#[derive(Debug, PartialEq, Eq)]
pub struct BindPlan {
    pub raw: String,
    pub allow_non_loopback: bool,
}

pub open spec fn optional_view(value: Option<&str>) -> Option<Seq<char>> {
    match value {
        Some(text) => Some(text@),
        None => None,
    }
}

/// The configured address, or the default of the identity.
pub open spec fn configured_bind(
    identity: SidecarIdentity,
    bind_setting: Option<Seq<char>>,
) -> Seq<char> {
    match bind_setting {
        Some(text) => text,
        None => identity.default_bind@,
    }
}

/// Settle on an address and a permission: the product may rewrite what the environment
/// says. The settings are the values of the identity's bind key and of the permission
/// key, where they are set.
pub fn plan_from_env<O: SidecarOverrides>(
    identity: SidecarIdentity,
    overrides: &O,
    bind_setting: Option<&str>,
    allow_setting: Option<&str>,
) -> (plan: BindPlan)
    ensures
        exists|raw: &str|
            raw@ == configured_bind(identity, optional_view(bind_setting))
                && #[trigger] call_ensures(O::bind_raw, (overrides, raw), plan.raw),
        call_ensures(
            O::allow_non_loopback,
            (overrides, switched_on(optional_view(allow_setting))),
            plan.allow_non_loopback,
        ),
{
    let raw: &str = match bind_setting {
        Some(text) => text,
        None => identity.default_bind,
    };
    let bind = overrides.bind_raw(raw);
    let allow = overrides.allow_non_loopback(allow_non_loopback_from_env(allow_setting));
    let plan = BindPlan { raw: bind, allow_non_loopback: allow };
    assert(call_ensures(O::bind_raw, (overrides, raw), plan.raw));
    plan
}

impl SidecarConfig<DefaultOverrides> {
    /// A configuration that overrides nothing. `lookup` is what looking up the address
    /// gave.
    pub fn from_bind(
        identity: SidecarIdentity,
        raw: &str,
        allow_non_loopback: bool,
        lookup: AddressLookup,
    ) -> (outcome: Result<Self, SidecarError>)
        ensures
            reports(outcome, bind_fault(raw@, allow_non_loopback, lookup)),
            outcome matches Ok(config) ==> config@ == bare(
                identity,
                lookup->Found_0,
                DefaultOverrides,
            ),
    {
        SidecarConfig::from_bind_with(identity, raw, allow_non_loopback, DefaultOverrides, lookup)
    }
}

impl<O> SidecarConfig<O> {
    /// A configuration with product overrides. `lookup` is what looking up the address
    /// gave.
    pub fn from_bind_with(
        identity: SidecarIdentity,
        raw: &str,
        allow_non_loopback: bool,
        overrides: O,
        lookup: AddressLookup,
    ) -> (outcome: Result<Self, SidecarError>)
        ensures
            reports(outcome, bind_fault(raw@, allow_non_loopback, lookup)),
            outcome matches Ok(config) ==> config@ == bare(identity, lookup->Found_0, overrides),
    {
        match parse_bind(raw, allow_non_loopback, lookup) {
            Ok(listen) => Ok(
                SidecarConfig {
                    identity,
                    listen,
                    overrides,
                    runtime_values: RuntimeValues::default(),
                    runtime_updates: None,
                },
            ),
            Err(error) => Err(error),
        }
    }

    /// Attach the entry matching this sidecar identity from one single- or
    /// multi-sidecar file.
    pub fn with_sidecar_file(self, file: &OresSidecarFile) -> (outcome: Result<
        Self,
        SidecarError,
    >)
        ensures
            reports(outcome, file.resolve_fault(self@.identity.service@)),
            outcome matches Ok(config) ==> exists|i: int|
                #[trigger] first_with_id(file.sidecars@, self@.identity.service@, i) && config@ == (
                ConfigModel {
                    layers: file.sidecars@[i].defined_layers(),
                    policy: Some(file.sidecars@[i].runtime_updates),
                    ..self@
                }),
    {
        match file.resolve(self.identity.service) {
            Ok(resolved) => Ok(
                SidecarConfig {
                    identity: self.identity,
                    listen: self.listen,
                    overrides: self.overrides,
                    runtime_values: resolved.runtime_values,
                    runtime_updates: Some(resolved.definition.runtime_updates),
                },
            ),
            Err(error) => Err(error),
        }
    }

    /// Attach a sidecar file when there is one.
    pub fn with_optional_sidecar_file(self, file: Option<&OresSidecarFile>) -> (outcome: Result<
        Self,
        SidecarError,
    >)
        ensures
            match file {
                None => outcome == Ok::<Self, SidecarError>(self),
                Some(file) => {
                    &&& reports(outcome, file.resolve_fault(self@.identity.service@))
                    &&& outcome matches Ok(config) ==> exists|i: int|
                        #[trigger] first_with_id(file.sidecars@, self@.identity.service@, i)
                            && config@ == (ConfigModel {
                            layers: file.sidecars@[i].defined_layers(),
                            policy: Some(file.sidecars@[i].runtime_updates),
                            ..self@
                        })
                },
            },
    {
        match file {
            Some(file) => self.with_sidecar_file(file),
            None => Ok(self),
        }
    }

    pub fn runtime_values(&self) -> (values: &RuntimeValues)
        ensures
            values@ == self@.layers,
    {
        &self.runtime_values
    }

    /// Part the runtime values from the rest, so that the configuration can serve while a
    /// shared handle or an update controller keeps the values. What serves has none of them
    /// left to be set.
    pub fn split_runtime_values(self) -> (parts: (Self, RuntimeValues))
        ensures
            parts.0@ == (ConfigModel { layers: no_layers(), ..self@ }),
            parts.1@ == self@.layers,
    {
        let SidecarConfig { identity, listen, overrides, runtime_values, runtime_updates } = self;
        let rest = SidecarConfig {
            identity,
            listen,
            overrides,
            runtime_values: RuntimeValues::default(),
            runtime_updates,
        };
        (rest, runtime_values)
    }

    /// Hand the runtime values out, to a shared handle or to an update controller.
    pub fn into_runtime_values(self) -> (values: RuntimeValues)
        ensures
            values@ == self@.layers,
    {
        self.runtime_values
    }

    pub fn runtime_update_policy(&self) -> (policy: Option<&RuntimeUpdatePolicy>)
        ensures
            match policy {
                Some(policy) => self@.policy == Some(*policy),
                None => self@.policy is None,
            },
    {
        self.runtime_updates.as_ref()
    }

    pub fn overrides(&self) -> (overrides: &O)
        ensures
            *overrides == self@.overrides,
    {
        &self.overrides
    }
}

/// The address to listen on is the configured one, and the identity's own where none is.
pub proof fn law_where_the_address_comes_from(identity: SidecarIdentity, text: Seq<char>)
    ensures
        configured_bind(identity, Some(text)) == text,
        configured_bind(identity, None) == identity.default_bind@,
{
}

/// A configuration without a sidecar file has no runtime values and no update policy, and
/// listens where it was told to.
pub proof fn law_bare_configurations<O>(
    identity: SidecarIdentity,
    listen: SocketAddress,
    overrides: O,
    key: Seq<char>,
)
    ensures
        ({
            let config = bare(identity, listen, overrides);
            &&& config.identity == identity && config.listen == listen && config.overrides
                == overrides
            &&& config.policy is None
            &&& !config.layers.mutable.contains(key)
            &&& !config.layers.baseline.contains_key(key)
            &&& !config.layers.overrides.contains_key(key)
        }),
{
}

} // verus!
