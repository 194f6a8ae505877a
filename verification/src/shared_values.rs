//! Runtime values that several adapters hold at once.

use crate::error::{reports, SidecarError};
use crate::runtime_values::{
    patch_fault, patched_overrides, RuntimeLayers, RuntimeValueUpdate, RuntimeValues,
};
use crate::text_map::{TextMap, TextSet};
use std::sync::Arc;
use vstd::prelude::*;
use vstd::rwlock::{RwLock, RwLockPredicate};

verus! {

/// What never changes behind a shared handle: the allowlist and the baseline.
#[verifier::ext_equal]
pub struct Configuration {
    pub mutable: Set<Seq<char>>,
    pub baseline: Map<Seq<char>, String>,
}

impl Configuration {
    /// Values that a handle of this configuration may find behind it.
    pub open spec fn holds(self, layers: RuntimeLayers) -> bool {
        layers.well_formed() && layers.mutable == self.mutable && layers.baseline == self.baseline
    }
}

impl RwLockPredicate<RuntimeValues> for Configuration {
    open spec fn inv(self, values: RuntimeValues) -> bool {
        self.holds(values@)
    }
}

/// A handle on runtime values. Its clones lead to the same values: an update through one of
/// them is an update for all.
pub struct SharedRuntimeValues {
    cell: Arc<RwLock<RuntimeValues, Configuration>>,
}

impl SharedRuntimeValues {
    /// The one place where the values lie.
    pub closed spec fn cell(self) -> RwLock<RuntimeValues, Configuration> {
        *self.cell
    }

    pub closed spec fn configuration(self) -> Configuration {
        self.cell.pred()
    }

    /// Both handles lead to the same values.
    pub open spec fn shares_with(self, other: SharedRuntimeValues) -> bool {
        self.cell() == other.cell() && self.configuration() == other.configuration()
    }

    pub fn new(values: RuntimeValues) -> (handle: Self)
        ensures
            handle.configuration() == (Configuration {
                mutable: values@.mutable,
                baseline: values@.baseline,
            }),
            handle.configuration().holds(values@),
    {
        proof {
            use_type_invariant(&values);
        }
        let ghost configuration = Configuration {
            mutable: values@.mutable,
            baseline: values@.baseline,
        };
        SharedRuntimeValues { cell: Arc::new(RwLock::new(values, Ghost(configuration))) }
    }

    /// The value in force for `key`.
    pub fn get(&self, key: &str) -> (value: Option<String>)
        ensures
            exists|layers: RuntimeLayers| #[trigger]
                self.configuration().holds(layers) && value == (
                if layers.effective().contains_key(key@) {
                    Some(layers.effective()[key@])
                } else {
                    None::<String>
                }),
    {
        let reading = self.cell.acquire_read();
        let value = reading.borrow().get(key);
        assert(self.configuration().holds(reading.view()@));
        reading.release_read();
        value
    }

    /// All values in force.
    pub fn snapshot(&self) -> (values: TextMap<String>)
        ensures
            exists|layers: RuntimeLayers| #[trigger]
                self.configuration().holds(layers) && values@ == layers.effective(),
    {
        let reading = self.cell.acquire_read();
        let values = reading.borrow().snapshot();
        assert(self.configuration().holds(reading.view()@));
        reading.release_read();
        values
    }

    pub fn is_mutable(&self, key: &str) -> (found: bool)
        ensures
            found == self.configuration().mutable.contains(key@),
    {
        let reading = self.cell.acquire_read();
        let found = reading.borrow().is_mutable(key);
        reading.release_read();
        found
    }

    pub fn mutable_keys(&self) -> (keys: TextSet)
        ensures
            keys@ == self.configuration().mutable,
    {
        let reading = self.cell.acquire_read();
        let keys = reading.borrow().mutable_keys();
        reading.release_read();
        keys
    }

    /// Apply a bounded patch atomically, for every handle that shares these values. What is
    /// rejected does not depend on what is in force. What a later call finds is left open
    /// here: between two calls every other handle may have applied patches of its own.
    pub fn apply_patch(&self, updates: &[RuntimeValueUpdate]) -> (outcome: Result<
        (),
        SidecarError,
    >)
        ensures
            reports(outcome, patch_fault(self.configuration().mutable, updates@)),
            outcome is Ok ==> exists|before: RuntimeLayers| #[trigger]
                self.configuration().holds(before) && self.configuration().holds(
                    before.overridden_by(patched_overrides(before.overrides, updates@)),
                ),
    {
        let (held, writing) = self.cell.acquire_write();
        let mut values = held;
        assert(self.configuration().holds(values@));
        let outcome = values.apply_patch(updates);
        writing.release_write(values);
        outcome
    }
}

impl Clone for SharedRuntimeValues {
    /// Another handle on the same values.
    fn clone(&self) -> (copy: Self)
        ensures
            copy.shares_with(*self),
    {
        SharedRuntimeValues { cell: self.cell.clone() }
    }
}

/// Handles that share, share with each other's clones too, and whatever one of them may find
/// the others may find: there is one set of values behind them.
pub proof fn law_clones_lead_to_one_state(
    a: SharedRuntimeValues,
    b: SharedRuntimeValues,
    c: SharedRuntimeValues,
    layers: RuntimeLayers,
)
    requires
        a.shares_with(b),
        b.shares_with(c),
    ensures
        a.shares_with(a),
        b.shares_with(a),
        a.shares_with(c),
        a.cell() == c.cell(),
        a.configuration().holds(layers) <==> c.configuration().holds(layers),
{
}

/// What may lie behind a handle has the allowlist and the baseline of its configuration, and
/// overrides that keep to them.
pub proof fn law_what_may_lie_behind_a_handle(
    configuration: Configuration,
    layers: RuntimeLayers,
    key: Seq<char>,
)
    requires
        configuration.holds(layers),
    ensures
        layers.mutable == configuration.mutable,
        layers.baseline == configuration.baseline,
        layers.overrides.contains_key(key) ==> configuration.mutable.contains(key),
        configuration.baseline.contains_key(key) ==> layers.effective().contains_key(key),
        !configuration.mutable.contains(key) ==> !layers.effective().contains_key(key),
{
}

} // verus!
