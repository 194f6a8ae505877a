//! Product-specific overrides of shared sidecar behavior.

use crate::probe::ProductProbe;
use vstd::prelude::*;

verus! {

/// Implement this on a named type when the product has real policy. Unoverridden
/// methods keep the shared-library default (pass the configured bind through, honor
/// the permission to listen publicly, `/readyz` is ready, no extra health payload).
pub trait SidecarOverrides: ProductProbe {
    /// Rewrite the bind string after env lookup. `raw` is already the configured one or
    /// the default of the identity.
    fn bind_raw(&self, raw: &str) -> (bind: String)
        default_ensures
            bind@ == raw@,
    {
        raw.to_owned()
    }

    /// Filter the env-derived allow-non-loopback flag. Return false to refuse
    /// a public bind even when the env flag is on.
    fn allow_non_loopback(&self, from_env: bool) -> (allow: bool)
        default_ensures
            allow == from_env,
    {
        from_env
    }
}

/// A product that overrides nothing.
#[derive(Clone, Copy, Debug, Default)]
pub struct DefaultOverrides;

impl ProductProbe for DefaultOverrides {

}

impl SidecarOverrides for DefaultOverrides {

}

} // verus!
