//! What a product adds to the sidecar's own health.

use vstd::prelude::*;

verus! {

/// Optional product-specific health payload and readiness.
pub trait ProductProbe {
    fn extra_health(&self) -> (extra: Option<serde_json::Value>)
        default_ensures
            extra is None,
    {
        None
    }

    fn ready(&self) -> (ready: bool)
        default_ensures
            ready,
    {
        true
    }
}

/// A product that adds nothing.
#[derive(Clone, Copy, Debug, Default)]
pub struct NoopProbe;

impl ProductProbe for NoopProbe {

}

} // verus!
