//! Revision-aware reconciliation of backend updates.
//!
//! A backend publishes authoritative snapshots and ordered events for one
//! two-part keyspace. The controller maps both onto the allowlisted overrides of
//! [`RuntimeValues`]: it takes events one revision at a time, and after a gap it
//! takes none until a snapshot has repaired it.

use crate::error::{reports, Fault, SidecarError};
use crate::runtime_values::{
    admissible, law_first_bad_update_refuses_a_patch, law_what_patches_are_accepted,
    lemma_first_inadmissible_entry, lemma_listed, listed, lists, overrides_fault,
    patched_overrides, updates_fault, updates_key, RuntimeLayers, RuntimeValueUpdate, RuntimeValues, MAX_RUNTIME_KEYS,
};
use crate::text::{is_plain_name, plain_name, same_text};
use crate::text_map::{
    ascending, entries_map, lemma_ascending_entries, lemma_precedes_irreflexive, precedes, TextMap,
    TextSet,
};
use vstd::prelude::*;

verus! {

/// Largest integer represented exactly by every supported runtime, including JavaScript.
pub const MAX_SAFE_RUNTIME_REVISION: u64 = 9_007_199_254_740_991;

pub const MAX_RUNTIME_KEYSPACE_SEGMENT_BYTES: usize = 64;

#[derive(Debug, PartialEq, Eq)]
pub struct RuntimeUpdateTarget {
    pub namespace: String,
    pub cache: String,
}

impl Clone for RuntimeUpdateTarget {
    fn clone(&self) -> (copy: Self)
        ensures
            copy == *self,
    {
        RuntimeUpdateTarget { namespace: self.namespace.clone(), cache: self.cache.clone() }
    }
}

/// A segment of a keyspace name.
pub open spec fn keyspace_segment(value: Seq<char>) -> bool {
    plain_name(value, MAX_RUNTIME_KEYSPACE_SEGMENT_BYTES as nat)
}

pub fn valid_keyspace_segment(value: &str) -> (valid: bool)
    ensures
        valid == keyspace_segment(value@),
{
    is_plain_name(value, MAX_RUNTIME_KEYSPACE_SEGMENT_BYTES)
}

impl RuntimeUpdateTarget {
    pub fn new(namespace: &str, cache: &str) -> (outcome: Result<Self, SidecarError>)
        ensures
            reports(outcome, target_shape_fault(namespace@, cache@)),
            outcome matches Ok(target) ==> target.namespace@ == namespace@ && target.cache@
                == cache@,
    {
        if !valid_keyspace_segment(namespace) || !valid_keyspace_segment(cache) {
            return Err(
                SidecarError::InvalidConfig { reason: "runtime update keyspace is invalid" },
            );
        }
        Ok(RuntimeUpdateTarget { namespace: namespace.to_owned(), cache: cache.to_owned() })
    }
}

pub open spec fn target_shape_fault(namespace: Seq<char>, cache: Seq<char>) -> Option<Fault> {
    if keyspace_segment(namespace) && keyspace_segment(cache) {
        None
    } else {
        Some(Fault::InvalidConfig("runtime update keyspace is invalid"@))
    }
}

#[derive(Clone, Copy, Debug, PartialEq, Eq, Structural)]
pub enum RuntimeUpdateOperation {
    Upsert,
    Delete,
    Replace,
    Invalidate,
    Resync,
}

#[derive(Clone, Debug, PartialEq, Eq)]
pub struct RuntimeUpdateBatch {
    pub namespace: String,
    pub cache: String,
    pub revision: u64,
    pub operation: RuntimeUpdateOperation,
    pub entries: TextMap<String>,
    pub keys: Vec<String>,
}

impl RuntimeUpdateBatch {
    pub fn new(
        namespace: &str,
        cache: &str,
        revision: u64,
        operation: RuntimeUpdateOperation,
    ) -> (batch: Self)
        ensures
            batch.namespace@ == namespace@,
            batch.cache@ == cache@,
            batch.revision == revision,
            batch.operation == operation,
            batch.entries@ == Map::<Seq<char>, String>::empty(),
            batch.keys@ == Seq::<String>::empty(),
    {
        RuntimeUpdateBatch {
            namespace: namespace.to_owned(),
            cache: cache.to_owned(),
            revision,
            operation,
            entries: TextMap::new(),
            keys: Vec::new(),
        }
    }
}

#[derive(Clone, Copy, Debug, PartialEq, Eq, Structural)]
pub enum RuntimeUpdateOutcome {
    Applied { revision: u64 },
    Duplicate { revision: u64 },
    StaleSnapshotIgnored { current: u64, incoming: u64 },
    ReconcileRequired { current: u64, incoming: u64 },
}

#[derive(Clone, Copy, Debug, Default, PartialEq, Eq)]
pub struct RuntimeUpdateState {
    pub revision: u64,
    pub stale: bool,
    pub backend_key_count: usize,
}

/// What is known of a controller.
#[verifier::ext_equal]
pub struct UpdateModel {
    pub layers: RuntimeLayers,
    /// The namespace and the cache whose updates are taken.
    pub target: Option<(Seq<char>, Seq<char>)>,
    pub revision: u64,
    pub stale: bool,
    pub backend_keys: Set<Seq<char>>,
}

/// Why updates for `namespace` and `cache` are not taken.
pub open spec fn target_fault(
    target: Option<(Seq<char>, Seq<char>)>,
    namespace: Seq<char>,
    cache: Seq<char>,
) -> Option<Fault> {
    match target {
        None => Some(Fault::InvalidConfig("runtime update target is not configured"@)),
        Some(configured) => if configured == (namespace, cache) {
            None
        } else {
            Some(
                Fault::InvalidConfig(
                    "runtime update target does not match configured keyspace"@,
                ),
            )
        },
    }
}

/// What is wrong with a snapshot before its entries are looked at.
pub open spec fn snapshot_fault(revision: u64, entries: Map<Seq<char>, String>) -> Option<Fault> {
    if revision > MAX_SAFE_RUNTIME_REVISION || (revision == 0 && entries.len() > 0) {
        Some(Fault::InvalidConfig("runtime snapshot revision is invalid"@))
    } else if entries.len() > MAX_RUNTIME_KEYS {
        Some(Fault::InvalidConfig("runtime snapshot exceeds the bounded key count"@))
    } else {
        None
    }
}

/// No two of `keys` read the same.
pub open spec fn distinct(keys: Seq<String>) -> bool {
    forall|i: int, j: int|
        0 <= i < j < keys.len() ==> #[trigger] keys[i]@ != #[trigger] keys[j]@
}

/// The operation has the payload that it calls for and no other.
pub open spec fn fitting_payload(
    operation: RuntimeUpdateOperation,
    entries: Map<Seq<char>, String>,
    keys: Seq<String>,
) -> bool {
    match operation {
        RuntimeUpdateOperation::Upsert => entries.len() > 0 && keys.len() == 0,
        RuntimeUpdateOperation::Delete => entries.len() == 0 && keys.len() > 0,
        RuntimeUpdateOperation::Replace => keys.len() == 0,
        RuntimeUpdateOperation::Invalidate | RuntimeUpdateOperation::Resync => entries.len() == 0
            && keys.len() == 0,
    }
}

/// What is wrong with an event before its keys are looked at.
pub open spec fn batch_shape_fault(batch: RuntimeUpdateBatch) -> Option<Fault> {
    if batch.revision == 0 || batch.revision > MAX_SAFE_RUNTIME_REVISION {
        Some(Fault::InvalidConfig("runtime event revision is invalid"@))
    } else if batch.entries@.len() > MAX_RUNTIME_KEYS || batch.keys@.len() > MAX_RUNTIME_KEYS {
        Some(Fault::InvalidConfig("runtime event exceeds the bounded key count"@))
    } else if !fitting_payload(batch.operation, batch.entries@, batch.keys@) {
        Some(Fault::InvalidConfig("runtime event operation payload is invalid"@))
    } else if !distinct(batch.keys@) {
        Some(Fault::InvalidConfig("runtime delete event contains duplicate keys"@))
    } else {
        None
    }
}

/// The removal of each of `keys`.
pub open spec fn removals(keys: Seq<String>) -> Seq<RuntimeValueUpdate> {
    keys.map_values(|key: String| RuntimeValueUpdate { key, value: None })
}

/// Why the operation of an event cannot be applied to `layers`.
pub open spec fn operation_fault(
    layers: RuntimeLayers,
    operation: RuntimeUpdateOperation,
    entries: Map<Seq<char>, String>,
    keys: Seq<String>,
) -> Option<Fault> {
    match operation {
        RuntimeUpdateOperation::Upsert | RuntimeUpdateOperation::Replace => overrides_fault(
            layers.mutable,
            entries,
        ),
        RuntimeUpdateOperation::Delete => updates_fault(layers.mutable, removals(keys)),
        RuntimeUpdateOperation::Invalidate | RuntimeUpdateOperation::Resync => None,
    }
}

/// The overrides that the operation of an event leaves.
pub open spec fn operation_overrides(
    overrides: Map<Seq<char>, String>,
    operation: RuntimeUpdateOperation,
    entries: Map<Seq<char>, String>,
    keys: Seq<String>,
) -> Map<Seq<char>, String> {
    match operation {
        RuntimeUpdateOperation::Upsert => overrides.union_prefer_right(entries),
        RuntimeUpdateOperation::Delete => overrides.remove_keys(listed(keys)),
        RuntimeUpdateOperation::Replace => entries,
        RuntimeUpdateOperation::Invalidate => Map::empty(),
        RuntimeUpdateOperation::Resync => overrides,
    }
}

/// The keys that the backend is known to hold after the operation of an event.
pub open spec fn operation_keys(
    backend_keys: Set<Seq<char>>,
    operation: RuntimeUpdateOperation,
    entries: Map<Seq<char>, String>,
    keys: Seq<String>,
) -> Set<Seq<char>> {
    match operation {
        RuntimeUpdateOperation::Upsert => backend_keys.union(entries.dom()),
        RuntimeUpdateOperation::Delete => backend_keys.difference(listed(keys)),
        RuntimeUpdateOperation::Replace => entries.dom(),
        RuntimeUpdateOperation::Invalidate => Set::empty(),
        RuntimeUpdateOperation::Resync => backend_keys,
    }
}

impl UpdateModel {
    /// What a snapshot is answered, and what it leaves.
    pub open spec fn after_snapshot(
        self,
        namespace: Seq<char>,
        cache: Seq<char>,
        revision: u64,
        entries: Map<Seq<char>, String>,
    ) -> (Result<RuntimeUpdateOutcome, Fault>, UpdateModel) {
        if let Some(fault) = target_fault(self.target, namespace, cache) {
            (Err(fault), self)
        } else if let Some(fault) = snapshot_fault(revision, entries) {
            (Err(fault), self)
        } else if revision < self.revision {
            (
                Ok(
                    RuntimeUpdateOutcome::StaleSnapshotIgnored {
                        current: self.revision,
                        incoming: revision,
                    },
                ),
                self,
            )
        } else if let Some(fault) = overrides_fault(self.layers.mutable, entries) {
            (Err(fault), self)
        } else {
            (
                Ok(RuntimeUpdateOutcome::Applied { revision }),
                UpdateModel {
                    layers: self.layers.overridden_by(entries),
                    target: self.target,
                    revision,
                    stale: false,
                    backend_keys: entries.dom(),
                },
            )
        }
    }

    /// What an event is answered, and what it leaves.
    pub open spec fn after_batch(self, batch: RuntimeUpdateBatch) -> (
        Result<RuntimeUpdateOutcome, Fault>,
        UpdateModel,
    ) {
        let reconcile = RuntimeUpdateOutcome::ReconcileRequired {
            current: self.revision,
            incoming: batch.revision,
        };
        if let Some(fault) = target_fault(self.target, batch.namespace@, batch.cache@) {
            (Err(fault), self)
        } else if let Some(fault) = batch_shape_fault(batch) {
            (Err(fault), self)
        } else if batch.revision <= self.revision {
            (Ok(RuntimeUpdateOutcome::Duplicate { revision: self.revision }), self)
        } else if self.stale {
            (Ok(reconcile), self)
        } else if batch.revision != self.revision + 1 || batch.operation
            == RuntimeUpdateOperation::Resync {
            (Ok(reconcile), UpdateModel { stale: true, ..self })
        } else if let Some(fault) = operation_fault(
            self.layers,
            batch.operation,
            batch.entries@,
            batch.keys@,
        ) {
            (Err(fault), self)
        } else {
            (
                Ok(RuntimeUpdateOutcome::Applied { revision: batch.revision }),
                UpdateModel {
                    layers: self.layers.overridden_by(
                        operation_overrides(
                            self.layers.overrides,
                            batch.operation,
                            batch.entries@,
                            batch.keys@,
                        ),
                    ),
                    target: self.target,
                    revision: batch.revision,
                    stale: false,
                    backend_keys: operation_keys(
                        self.backend_keys,
                        batch.operation,
                        batch.entries@,
                        batch.keys@,
                    ),
                },
            )
        }
    }
}

/// `result` is what was to be answered.
pub open spec fn answers(
    result: Result<RuntimeUpdateOutcome, SidecarError>,
    expected: Result<RuntimeUpdateOutcome, Fault>,
) -> bool {
    match result {
        Ok(outcome) => expected == Ok::<RuntimeUpdateOutcome, Fault>(outcome),
        Err(error) => expected == Err::<RuntimeUpdateOutcome, Fault>(error@),
    }
}

fn validate_snapshot(revision: u64, entries: &TextMap<String>) -> (outcome: Result<
    (),
    SidecarError,
>)
    ensures
        reports(outcome, snapshot_fault(revision, entries@)),
{
    if revision > MAX_SAFE_RUNTIME_REVISION || (revision == 0 && !entries.is_empty()) {
        return Err(SidecarError::InvalidConfig { reason: "runtime snapshot revision is invalid" });
    }
    if entries.len() > MAX_RUNTIME_KEYS {
        return Err(
            SidecarError::InvalidConfig {
                reason: "runtime snapshot exceeds the bounded key count",
            },
        );
    }
    Ok(())
}

fn all_distinct(keys: &Vec<String>) -> (unique: bool)
    ensures
        unique == distinct(keys@),
{
    let mut seen = TextSet::new();
    let mut i: usize = 0;
    while i < keys.len()
        invariant
            i <= keys@.len(),
            forall|j: int| 0 <= j < i ==> seen@.contains(#[trigger] keys@[j]@),
            forall|key: Seq<char>| #[trigger]
                seen@.contains(key) ==> exists|j: int| 0 <= j < i && #[trigger] keys@[j]@ == key,
            forall|j: int, k: int|
                0 <= j < k < i ==> #[trigger] keys@[j]@ != #[trigger] keys@[k]@,
        decreases keys@.len() - i,
    {
        if seen.contains(keys[i].as_str()) {
            return false;
        }
        let ghost before = seen@;
        seen.insert(keys[i].clone());
        proof {
            assert forall|key: Seq<char>| #[trigger] seen@.contains(key) implies exists|j: int|
                0 <= j < i + 1 && #[trigger] keys@[j]@ == key by {
                if key == keys@[i as int]@ {
                    assert(keys@[i as int]@ == key);
                } else {
                    assert(before.contains(key));
                }
            }
        }
        i = i + 1;
    }
    true
}

fn validate_batch_shape(batch: &RuntimeUpdateBatch) -> (outcome: Result<(), SidecarError>)
    ensures
        reports(outcome, batch_shape_fault(*batch)),
{
    if batch.revision == 0 || batch.revision > MAX_SAFE_RUNTIME_REVISION {
        return Err(SidecarError::InvalidConfig { reason: "runtime event revision is invalid" });
    }
    if batch.entries.len() > MAX_RUNTIME_KEYS || batch.keys.len() > MAX_RUNTIME_KEYS {
        return Err(
            SidecarError::InvalidConfig { reason: "runtime event exceeds the bounded key count" },
        );
    }
    let valid_shape = match batch.operation {
        RuntimeUpdateOperation::Upsert => !batch.entries.is_empty() && batch.keys.len() == 0,
        RuntimeUpdateOperation::Delete => batch.entries.is_empty() && batch.keys.len() != 0,
        RuntimeUpdateOperation::Replace => batch.keys.len() == 0,
        RuntimeUpdateOperation::Invalidate | RuntimeUpdateOperation::Resync => {
            batch.entries.is_empty() && batch.keys.len() == 0
        },
    };
    if !valid_shape {
        return Err(
            SidecarError::InvalidConfig { reason: "runtime event operation payload is invalid" },
        );
    }
    if !all_distinct(&batch.keys) {
        return Err(
            SidecarError::InvalidConfig { reason: "runtime delete event contains duplicate keys" },
        );
    }
    Ok(())
}

/// The updates that set each of `entries`.
fn upserts(entries: &Vec<(String, String)>) -> (patch: Vec<RuntimeValueUpdate>)
    ensures
        patch@.len() == entries@.len(),
        forall|i: int|
            0 <= i < entries@.len() ==> #[trigger] patch@[i] == (RuntimeValueUpdate {
                key: entries@[i].0,
                value: Some(entries@[i].1),
            }),
{
    let mut patch: Vec<RuntimeValueUpdate> = Vec::new();
    let mut i: usize = 0;
    while i < entries.len()
        invariant
            i <= entries@.len(),
            patch@.len() == i,
            forall|j: int|
                0 <= j < i ==> #[trigger] patch@[j] == (RuntimeValueUpdate {
                    key: entries@[j].0,
                    value: Some(entries@[j].1),
                }),
        decreases entries@.len() - i,
    {
        patch.push(
            RuntimeValueUpdate { key: entries[i].0.clone(), value: Some(entries[i].1.clone()) },
        );
        i = i + 1;
    }
    patch
}

/// The updates that remove each of `keys`.
fn deletions(keys: &Vec<String>) -> (patch: Vec<RuntimeValueUpdate>)
    ensures
        patch@ == removals(keys@),
{
    let mut patch: Vec<RuntimeValueUpdate> = Vec::new();
    let mut i: usize = 0;
    while i < keys.len()
        invariant
            i <= keys@.len(),
            patch@ == removals(keys@.take(i as int)),
        decreases keys@.len() - i,
    {
        patch.push(RuntimeValueUpdate { key: keys[i].clone(), value: None });
        assert(patch@ =~= removals(keys@.take(i + 1)));
        i = i + 1;
    }
    assert(keys@.take(keys@.len() as int) =~= keys@);
    patch
}

/// Setting the entries of a map, in order, fails as the map does as a whole, and
/// otherwise lays the map over the overrides.
proof fn lemma_upserts(
    mutable: Set<Seq<char>>,
    overrides: Map<Seq<char>, String>,
    entries: Seq<(String, String)>,
    patch: Seq<RuntimeValueUpdate>,
)
    requires
        ascending(entries),
        patch.len() == entries.len() <= MAX_RUNTIME_KEYS,
        forall|i: int|
            0 <= i < entries.len() ==> #[trigger] patch[i] == (RuntimeValueUpdate {
                key: entries[i].0,
                value: Some(entries[i].1),
            }),
    ensures
        updates_fault(mutable, patch) == overrides_fault(mutable, entries_map(entries)),
        patched_overrides(overrides, patch) == overrides.union_prefer_right(entries_map(entries)),
{
    let n = entries.len() as int;
    lemma_upserts_prefix(mutable, overrides, entries, patch, n);
    assert(patch.take(n) =~= patch);
    assert(entries.take(n) =~= entries);
    lemma_ascending_entries(entries);
    if updates_fault(mutable, patch) is Some {
        let k = choose|k: int|
            0 <= k < n && #[trigger] first_inadmissible(mutable, entries, k) && updates_fault(
                mutable,
                patch,
            ) == Some(Fault::RuntimeUpdateRejected(entries[k].0@));
        lemma_first_inadmissible_entry(mutable, entries, k);
    } else {
        assert forall|key: Seq<char>| #[trigger]
            entries_map(entries).contains_key(key) implies admissible(
            mutable,
            key,
            Some(entries_map(entries)[key]),
        ) by {
            let i = choose|i: int| 0 <= i < entries.len() && #[trigger] entries[i].0@ == key;
            assert(entries[i].0@ == key);
        }
    }
}

spec fn first_inadmissible(
    mutable: Set<Seq<char>>,
    entries: Seq<(String, String)>,
    k: int,
) -> bool {
    &&& !admissible(mutable, entries[k].0@, Some(entries[k].1))
    &&& forall|j: int|
        0 <= j < k ==> admissible(mutable, #[trigger] entries[j].0@, Some(entries[j].1))
}

proof fn lemma_upserts_prefix(
    mutable: Set<Seq<char>>,
    overrides: Map<Seq<char>, String>,
    entries: Seq<(String, String)>,
    patch: Seq<RuntimeValueUpdate>,
    n: int,
)
    requires
        ascending(entries),
        patch.len() == entries.len(),
        forall|i: int|
            0 <= i < entries.len() ==> #[trigger] patch[i] == (RuntimeValueUpdate {
                key: entries[i].0,
                value: Some(entries[i].1),
            }),
        0 <= n <= entries.len(),
    ensures
        updates_fault(mutable, patch.take(n)) is None ==> forall|j: int|
            0 <= j < n ==> admissible(mutable, #[trigger] entries[j].0@, Some(entries[j].1)),
        updates_fault(mutable, patch.take(n)) is Some ==> exists|k: int|
            0 <= k < n && #[trigger] first_inadmissible(mutable, entries, k) && updates_fault(
                mutable,
                patch.take(n),
            ) == Some(Fault::RuntimeUpdateRejected(entries[k].0@)),
        patched_overrides(overrides, patch.take(n)) == overrides.union_prefer_right(
            entries_map(entries.take(n)),
        ),
    decreases n,
{
    if n == 0 {
        assert(patch.take(n) =~= Seq::<RuntimeValueUpdate>::empty());
        assert(entries.take(n) =~= Seq::<(String, String)>::empty());
        assert(overrides.union_prefer_right(entries_map(entries.take(n))) =~= overrides);
    } else {
        let reached = patch.take(n);
        let passed = patch.take(n - 1);
        lemma_upserts_prefix(mutable, overrides, entries, patch, n - 1);
        assert(reached.drop_last() =~= passed);
        assert(entries.take(n).drop_last() =~= entries.take(n - 1));
        assert(reached.last() == patch[n - 1]);
        assert(!updates_key(passed, reached.last().key@)) by {
            if updates_key(passed, reached.last().key@) {
                let i = choose|i: int|
                    0 <= i < passed.len() && #[trigger] passed[i].key@ == reached.last().key@;
                assert(passed[i] == patch[i]);
                assert(precedes(entries[i].0@, entries[n - 1].0@));
                lemma_precedes_irreflexive(entries[i].0@);
            }
        }
        if updates_fault(mutable, passed) is None && updates_fault(mutable, reached) is Some {
            assert(first_inadmissible(mutable, entries, n - 1));
        }
        assert(patched_overrides(overrides, reached) =~= overrides.union_prefer_right(
            entries_map(entries.take(n)),
        ));
    }
}

/// Removing keys one by one removes their set.
proof fn lemma_removals(overrides: Map<Seq<char>, String>, keys: Seq<String>)
    ensures
        patched_overrides(overrides, removals(keys)) == overrides.remove_keys(listed(keys)),
    decreases keys.len(),
{
    if keys.len() == 0 {
        assert(removals(keys) =~= Seq::<RuntimeValueUpdate>::empty());
        assert(overrides.remove_keys(listed(keys)) =~= overrides);
    } else {
        lemma_removals(overrides, keys.drop_last());
        assert(removals(keys).drop_last() =~= removals(keys.drop_last()));
        assert(patched_overrides(overrides, removals(keys)) =~= overrides.remove_keys(
            listed(keys),
        ));
    }
}

/// Revision-aware, provider-neutral update reducer. Adapters feed snapshots and
/// events here after validating their transport envelope. The controller
/// independently enforces the configured keyspace, ordered revisions, and atomic
/// mapping onto the sidecar's allowlisted runtime override surface.
#[derive(Debug)]
pub struct RuntimeUpdateController {
    values: RuntimeValues,
    target: Option<RuntimeUpdateTarget>,
    revision: u64,
    stale: bool,
    backend_keys: TextSet,
}

impl View for RuntimeUpdateController {
    type V = UpdateModel;

    closed spec fn view(&self) -> UpdateModel {
        UpdateModel {
            layers: self.values@,
            target: match self.target {
                Some(target) => Some((target.namespace@, target.cache@)),
                None => None,
            },
            revision: self.revision,
            stale: self.stale,
            backend_keys: self.backend_keys@,
        }
    }
}

/// A controller that has seen nothing of its backend yet.
pub open spec fn untouched(
    layers: RuntimeLayers,
    target: Option<(Seq<char>, Seq<char>)>,
) -> UpdateModel {
    UpdateModel { layers, target, revision: 0, stale: false, backend_keys: Set::empty() }
}

impl RuntimeUpdateController {
    /// Construct an update-disabled controller. Calls that try to apply backend
    /// state fail closed until a target is explicitly configured.
    pub fn new(values: RuntimeValues) -> (controller: Self)
        ensures
            controller@ == untouched(values@, None),
    {
        RuntimeUpdateController {
            values,
            target: None,
            revision: 0,
            stale: false,
            backend_keys: TextSet::new(),
        }
    }

    pub fn for_target(values: RuntimeValues, namespace: &str, cache: &str) -> (outcome: Result<
        Self,
        SidecarError,
    >)
        ensures
            reports(outcome, target_shape_fault(namespace@, cache@)),
            outcome matches Ok(controller) ==> controller@ == untouched(
                values@,
                Some((namespace@, cache@)),
            ),
    {
        match RuntimeUpdateTarget::new(namespace, cache) {
            Ok(target) => Ok(
                RuntimeUpdateController {
                    values,
                    target: Some(target),
                    revision: 0,
                    stale: false,
                    backend_keys: TextSet::new(),
                },
            ),
            Err(error) => Err(error),
        }
    }

    pub fn values(&self) -> (values: &RuntimeValues)
        ensures
            values@ == self@.layers,
    {
        &self.values
    }

    pub fn target(&self) -> (target: Option<&RuntimeUpdateTarget>)
        ensures
            match target {
                Some(target) => self@.target == Some((target.namespace@, target.cache@)),
                None => self@.target is None,
            },
    {
        self.target.as_ref()
    }

    pub fn state(&self) -> (state: RuntimeUpdateState)
        ensures
            self@.backend_keys.finite(),
            state == (RuntimeUpdateState {
                revision: self@.revision,
                stale: self@.stale,
                backend_key_count: self@.backend_keys.len() as usize,
            }),
            state.backend_key_count == self@.backend_keys.len(),
    {
        RuntimeUpdateState {
            revision: self.revision,
            stale: self.stale,
            backend_key_count: self.backend_keys.len(),
        }
    }

    /// Install one authoritative backend snapshot. Older snapshots are ignored;
    /// equal revisions are allowed so reconciliation can repair local overrides.
    pub fn apply_snapshot(
        &mut self,
        namespace: &str,
        cache: &str,
        revision: u64,
        entries: TextMap<String>,
    ) -> (result: Result<RuntimeUpdateOutcome, SidecarError>)
        ensures
            answers(result, old(self)@.after_snapshot(namespace@, cache@, revision, entries@).0),
            final(self)@ == old(self)@.after_snapshot(namespace@, cache@, revision, entries@).1,
    {
        if let Err(error) = self.validate_target(namespace, cache) {
            return Err(error);
        }
        if let Err(error) = validate_snapshot(revision, &entries) {
            return Err(error);
        }
        if revision < self.revision {
            return Ok(
                RuntimeUpdateOutcome::StaleSnapshotIgnored {
                    current: self.revision,
                    incoming: revision,
                },
            );
        }
        if let Err(error) = self.values.replace_overrides(&entries) {
            return Err(error);
        }
        self.revision = revision;
        self.stale = false;
        self.backend_keys = TextSet::keys_of(&entries);
        Ok(RuntimeUpdateOutcome::Applied { revision })
    }

    /// Reduce one ordered backend event. Revision gaps, explicit resync events,
    /// and all events received while stale never mutate values; an authoritative
    /// snapshot must repair the controller before event application resumes.
    pub fn apply_batch(&mut self, batch: RuntimeUpdateBatch) -> (result: Result<
        RuntimeUpdateOutcome,
        SidecarError,
    >)
        ensures
            answers(result, old(self)@.after_batch(batch).0),
            final(self)@ == old(self)@.after_batch(batch).1,
    {
        if let Err(error) = self.validate_target(batch.namespace.as_str(), batch.cache.as_str()) {
            return Err(error);
        }
        if let Err(error) = validate_batch_shape(&batch) {
            return Err(error);
        }
        if batch.revision <= self.revision {
            return Ok(RuntimeUpdateOutcome::Duplicate { revision: self.revision });
        }
        if self.stale {
            return Ok(
                RuntimeUpdateOutcome::ReconcileRequired {
                    current: self.revision,
                    incoming: batch.revision,
                },
            );
        }
        if batch.revision != self.revision.saturating_add(1) || batch.operation
            == RuntimeUpdateOperation::Resync {
            self.stale = true;
            return Ok(
                RuntimeUpdateOutcome::ReconcileRequired {
                    current: self.revision,
                    incoming: batch.revision,
                },
            );
        }
        if let Err(error) = self.apply_operation(&batch) {
            return Err(error);
        }
        self.revision = batch.revision;
        self.stale = false;
        Ok(RuntimeUpdateOutcome::Applied { revision: batch.revision })
    }

    /// Apply the operation of an event that is next in order.
    fn apply_operation(&mut self, batch: &RuntimeUpdateBatch) -> (outcome: Result<
        (),
        SidecarError,
    >)
        requires
            batch_shape_fault(*batch) is None,
        ensures
            reports(
                outcome,
                operation_fault(old(self)@.layers, batch.operation, batch.entries@, batch.keys@),
            ),
            final(self)@ == (if outcome is Ok {
                UpdateModel {
                    layers: old(self)@.layers.overridden_by(
                        operation_overrides(
                            old(self)@.layers.overrides,
                            batch.operation,
                            batch.entries@,
                            batch.keys@,
                        ),
                    ),
                    backend_keys: operation_keys(
                        old(self)@.backend_keys,
                        batch.operation,
                        batch.entries@,
                        batch.keys@,
                    ),
                    ..old(self)@
                }
            } else {
                old(self)@
            }),
    {
        let ghost before = self@;
        match batch.operation {
            RuntimeUpdateOperation::Upsert => {
                let entries = batch.entries.entries();
                let patch = upserts(entries);
                proof {
                    lemma_ascending_entries(entries@);
                    lemma_upserts(
                        before.layers.mutable,
                        before.layers.overrides,
                        entries@,
                        patch@,
                    );
                }
                if let Err(error) = self.values.apply_patch(patch.as_slice()) {
                    return Err(error);
                }
                self.backend_keys.insert_keys(&batch.entries);
            },
            RuntimeUpdateOperation::Delete => {
                let patch = deletions(&batch.keys);
                proof {
                    lemma_removals(before.layers.overrides, batch.keys@);
                }
                if let Err(error) = self.values.apply_patch(patch.as_slice()) {
                    return Err(error);
                }
                self.forget(&batch.keys);
            },
            RuntimeUpdateOperation::Replace => {
                if let Err(error) = self.values.replace_overrides(&batch.entries) {
                    return Err(error);
                }
                self.backend_keys = TextSet::keys_of(&batch.entries);
            },
            RuntimeUpdateOperation::Invalidate => {
                let none: TextMap<String> = TextMap::new();
                proof {
                    assert(none@.dom() =~= Set::<Seq<char>>::empty());
                }
                if let Err(error) = self.values.replace_overrides(&none) {
                    return Err(error);
                }
                self.backend_keys = TextSet::new();
            },
            RuntimeUpdateOperation::Resync => {},
        }
        Ok(())
    }

    /// The backend no longer holds `keys`.
    fn forget(&mut self, keys: &Vec<String>)
        ensures
            final(self)@ == (UpdateModel {
                backend_keys: old(self)@.backend_keys.difference(listed(keys@)),
                ..old(self)@
            }),
    {
        let ghost held = self@;
        let mut i: usize = 0;
        assert(held.backend_keys.difference(listed(keys@.take(0))) =~= held.backend_keys);
        while i < keys.len()
            invariant
                held == old(self)@,
                i <= keys@.len(),
                self@ == (UpdateModel {
                    backend_keys: held.backend_keys.difference(listed(keys@.take(i as int))),
                    ..held
                }),
            decreases keys@.len() - i,
        {
            let ghost before = self@;
            self.backend_keys.remove(keys[i].as_str());
            proof {
                assert(keys@.take(i + 1).drop_last() =~= keys@.take(i as int));
                assert(before.backend_keys.remove(keys@[i as int]@)
                    =~= held.backend_keys.difference(listed(keys@.take(i + 1))));
            }
            i = i + 1;
        }
        assert(keys@.take(keys@.len() as int) =~= keys@);
    }

    fn validate_target(&self, namespace: &str, cache: &str) -> (outcome: Result<(), SidecarError>)
        ensures
            reports(outcome, target_fault(self@.target, namespace@, cache@)),
    {
        match &self.target {
            None => Err(
                SidecarError::InvalidConfig { reason: "runtime update target is not configured" },
            ),
            Some(target) => {
                if !same_text(target.namespace.as_str(), namespace) || !same_text(
                    target.cache.as_str(),
                    cache,
                ) {
                    return Err(
                        SidecarError::InvalidConfig {
                            reason: "runtime update target does not match configured keyspace",
                        },
                    );
                }
                Ok(())
            },
        }
    }
}

/// Something that a backend sends.
pub enum Incoming {
    Snapshot {
        namespace: Seq<char>,
        cache: Seq<char>,
        revision: u64,
        entries: Map<Seq<char>, String>,
    },
    Event(RuntimeUpdateBatch),
}

impl UpdateModel {
    /// What something incoming is answered, and what it leaves.
    pub open spec fn after(self, incoming: Incoming) -> (
        Result<RuntimeUpdateOutcome, Fault>,
        UpdateModel,
    ) {
        match incoming {
            Incoming::Snapshot { namespace, cache, revision, entries } => self.after_snapshot(
                namespace,
                cache,
                revision,
                entries,
            ),
            Incoming::Event(batch) => self.after_batch(batch),
        }
    }
}

/// The revision never goes back, and the allowlist, the baseline and the target never
/// change.
pub proof fn law_revision_only_advances(model: UpdateModel, incoming: Incoming)
    ensures
        model.after(incoming).1.revision >= model.revision,
        model.after(incoming).1.target == model.target,
        model.after(incoming).1.layers.mutable == model.layers.mutable,
        model.after(incoming).1.layers.baseline == model.layers.baseline,
{
}

/// What is refused changes nothing at all.
pub proof fn law_refusal_is_atomic(model: UpdateModel, incoming: Incoming)
    requires
        model.after(incoming).0 is Err,
    ensures
        model.after(incoming).1 == model,
{
}

/// Only what was applied changes values, and then the revision is the applied one.
pub proof fn law_only_applied_updates_change_values(model: UpdateModel, incoming: Incoming)
    ensures
        match model.after(incoming).0 {
            Ok(RuntimeUpdateOutcome::Applied { revision }) => model.after(incoming).1.revision
                == revision && !model.after(incoming).1.stale,
            _ => model.after(incoming).1.layers == model.layers && model.after(
                incoming,
            ).1.backend_keys == model.backend_keys && model.after(incoming).1.revision
                == model.revision,
        },
{
}

/// A stale controller takes no event: nothing of it changes, and it stays stale.
pub proof fn law_stale_controller_takes_no_event(model: UpdateModel, batch: RuntimeUpdateBatch)
    requires
        model.stale,
    ensures
        model.after_batch(batch).1 == model,
        !(model.after_batch(batch).0 matches Ok(RuntimeUpdateOutcome::Applied { .. })),
{
}

/// However many events arrive, a stale controller stays as it is.
pub proof fn law_only_a_snapshot_repairs(model: UpdateModel, batches: Seq<RuntimeUpdateBatch>)
    requires
        model.stale,
    ensures
        batches.fold_left(model, |m: UpdateModel, b: RuntimeUpdateBatch| m.after_batch(b).1)
            == model,
    decreases batches.len(),
{
    let step = |m: UpdateModel, b: RuntimeUpdateBatch| m.after_batch(b).1;
    if batches.len() > 0 {
        law_only_a_snapshot_repairs(model, batches.drop_last());
        law_stale_controller_takes_no_event(model, batches.last());
    }
}

/// An event is applied only where it advances the revision by exactly one.
pub proof fn law_events_advance_by_one(model: UpdateModel, batch: RuntimeUpdateBatch)
    requires
        model.after_batch(batch).0 matches Ok(RuntimeUpdateOutcome::Applied { .. }),
    ensures
        batch.revision == model.revision + 1,
        model.after_batch(batch).1.revision == batch.revision,
        !model.stale,
{
}

/// A gap or a resync event leaves every value alone and makes the controller stale.
pub proof fn law_gaps_make_stale(model: UpdateModel, batch: RuntimeUpdateBatch)
    requires
        target_fault(model.target, batch.namespace@, batch.cache@) is None,
        batch_shape_fault(batch) is None,
        batch.revision > model.revision,
        batch.revision > model.revision + 1 || batch.operation == RuntimeUpdateOperation::Resync,
    ensures
        model.after_batch(batch).0 == Ok::<RuntimeUpdateOutcome, Fault>(
            RuntimeUpdateOutcome::ReconcileRequired {
                current: model.revision,
                incoming: batch.revision,
            },
        ),
        model.after_batch(batch).1 == (UpdateModel { stale: true, ..model }),
{
}

/// An event that is sent again after it was applied changes nothing more.
pub proof fn law_events_are_idempotent(model: UpdateModel, batch: RuntimeUpdateBatch)
    requires
        model.after_batch(batch).0 matches Ok(RuntimeUpdateOutcome::Applied { .. }),
    ensures
        model.after_batch(batch).1.after_batch(batch) == (
            Ok::<RuntimeUpdateOutcome, Fault>(
                RuntimeUpdateOutcome::Duplicate { revision: batch.revision },
            ),
            model.after_batch(batch).1,
        ),
{
}

/// A snapshot that is sent again repeats its answer and its result.
pub proof fn law_snapshots_are_idempotent(
    model: UpdateModel,
    namespace: Seq<char>,
    cache: Seq<char>,
    revision: u64,
    entries: Map<Seq<char>, String>,
)
    ensures
        model.after_snapshot(namespace, cache, revision, entries).1.after_snapshot(
            namespace,
            cache,
            revision,
            entries,
        ) == model.after_snapshot(namespace, cache, revision, entries),
{
}

/// A snapshot never rolls back: one with an older revision is ignored.
pub proof fn law_older_snapshots_are_ignored(
    model: UpdateModel,
    namespace: Seq<char>,
    cache: Seq<char>,
    revision: u64,
    entries: Map<Seq<char>, String>,
)
    requires
        revision < model.revision,
    ensures
        model.after_snapshot(namespace, cache, revision, entries).1 == model,
{
}

/// An applied snapshot decides everything that can change: whatever was missed
/// before, two controllers of one configuration agree after it, and neither is stale.
pub proof fn law_snapshots_converge(
    model: UpdateModel,
    other: UpdateModel,
    namespace: Seq<char>,
    cache: Seq<char>,
    revision: u64,
    entries: Map<Seq<char>, String>,
)
    requires
        model.target == other.target,
        model.layers.mutable == other.layers.mutable,
        model.layers.baseline == other.layers.baseline,
        model.revision <= revision,
        other.revision <= revision,
        model.after_snapshot(namespace, cache, revision, entries).0 is Ok,
    ensures
        model.after_snapshot(namespace, cache, revision, entries) == other.after_snapshot(
            namespace,
            cache,
            revision,
            entries,
        ),
        !model.after_snapshot(namespace, cache, revision, entries).1.stale,
        model.after_snapshot(namespace, cache, revision, entries).1.layers.overrides == entries,
{
}

/// Where the known backend keys are the overridden ones, they stay so.
pub proof fn law_backend_keys_are_the_overridden_ones(model: UpdateModel, incoming: Incoming)
    requires
        model.backend_keys == model.layers.overrides.dom(),
    ensures
        model.after(incoming).1.backend_keys == model.after(incoming).1.layers.overrides.dom(),
{
    if let Incoming::Event(batch) = incoming {
        let before = model.layers.overrides;
        assert(before.union_prefer_right(batch.entries@).dom() =~= before.dom().union(
            batch.entries@.dom(),
        ));
        assert(before.remove_keys(listed(batch.keys@)).dom() =~= before.dom().difference(
            listed(batch.keys@),
        ));
        assert(Map::<Seq<char>, String>::empty().dom() =~= Set::<Seq<char>>::empty());
    }
}

/// A deleted or invalidated key has its baseline value again.
pub proof fn law_deletion_restores_baseline(
    model: UpdateModel,
    batch: RuntimeUpdateBatch,
    key: Seq<char>,
)
    requires
        model.after_batch(batch).0 matches Ok(RuntimeUpdateOutcome::Applied { .. }),
        batch.operation == RuntimeUpdateOperation::Invalidate || (batch.operation
            == RuntimeUpdateOperation::Delete && listed(batch.keys@).contains(key)),
    ensures
        ({
            let after = model.after_batch(batch).1.layers;
            &&& after.effective().contains_key(key) <==> after.baseline.contains_key(key)
            &&& after.effective().contains_key(key) ==> after.effective()[key]
                == after.baseline[key]
        }),
{
}

/// Updates for another keyspace, or without a configured one, are refused.
pub proof fn law_foreign_keyspaces_are_refused(model: UpdateModel, batch: RuntimeUpdateBatch)
    requires
        model.target != Some((batch.namespace@, batch.cache@)),
    ensures
        model.after_batch(batch).0 is Err,
        model.after_snapshot(
            batch.namespace@,
            batch.cache@,
            batch.revision,
            batch.entries@,
        ).0 is Err,
{
}

/// Updates are taken for the configured namespace and cache alone; without a configured
/// keyspace none are.
pub proof fn law_which_updates_are_taken(
    namespace: Seq<char>,
    cache: Seq<char>,
    other_namespace: Seq<char>,
    other_cache: Seq<char>,
)
    ensures
        target_fault(Some((namespace, cache)), namespace, cache) is None,
        namespace != other_namespace || cache != other_cache ==> target_fault(
            Some((namespace, cache)),
            other_namespace,
            other_cache,
        ) == Some(
            Fault::InvalidConfig("runtime update target does not match configured keyspace"@),
        ),
        target_fault(None, namespace, cache) == Some(
            Fault::InvalidConfig("runtime update target is not configured"@),
        ),
{
}

/// A keyspace can be configured exactly where both its parts are plain names of at most 64
/// characters.
pub proof fn law_which_keyspaces_can_be_configured(namespace: Seq<char>, cache: Seq<char>)
    ensures
        target_shape_fault(namespace, cache) is None <==> plain_name(namespace, 64)
            && plain_name(cache, 64),
        target_shape_fault(namespace, cache) is Some ==> target_shape_fault(namespace, cache)
            == Some(Fault::InvalidConfig("runtime update keyspace is invalid"@)),
{
}

/// What a snapshot is answered: refused where its keyspace, its revision, its size or one of
/// its entries is not in order, ignored where it is older than what is known, and applied
/// otherwise.
pub proof fn law_what_snapshots_are_answered(
    model: UpdateModel,
    namespace: Seq<char>,
    cache: Seq<char>,
    revision: u64,
    entries: Map<Seq<char>, String>,
)
    ensures
        ({
            let answer = model.after_snapshot(namespace, cache, revision, entries).0;
            let foreign = target_fault(model.target, namespace, cache);
            let misnumbered = revision > 9_007_199_254_740_991 || (revision == 0 && entries.len()
                != 0);
            let refused = overrides_fault(model.layers.mutable, entries);
            &&& foreign is Some ==> answer == Err::<RuntimeUpdateOutcome, Fault>(foreign->0)
            &&& foreign is None && misnumbered ==> answer == Err::<RuntimeUpdateOutcome, Fault>(
                Fault::InvalidConfig("runtime snapshot revision is invalid"@),
            )
            &&& foreign is None && !misnumbered && entries.len() > 64 ==> answer == Err::<
                RuntimeUpdateOutcome,
                Fault,
            >(Fault::InvalidConfig("runtime snapshot exceeds the bounded key count"@))
            &&& foreign is None && !misnumbered && entries.len() <= 64 ==> {
                &&& revision < model.revision ==> answer == Ok::<RuntimeUpdateOutcome, Fault>(
                    RuntimeUpdateOutcome::StaleSnapshotIgnored {
                        current: model.revision,
                        incoming: revision,
                    },
                )
                &&& revision >= model.revision && refused is Some ==> answer == Err::<
                    RuntimeUpdateOutcome,
                    Fault,
                >(refused->0)
                &&& revision >= model.revision && refused is None ==> answer == Ok::<
                    RuntimeUpdateOutcome,
                    Fault,
                >(RuntimeUpdateOutcome::Applied { revision })
            }
        }),
{
}

/// What an applied snapshot leaves: its entries are the overrides and its keys those of the
/// backend, whatever there was before; the revision is its own and the controller is not
/// stale.
pub proof fn law_what_snapshots_leave(
    model: UpdateModel,
    namespace: Seq<char>,
    cache: Seq<char>,
    revision: u64,
    entries: Map<Seq<char>, String>,
    key: Seq<char>,
)
    ensures
        ({
            let (answer, after) = model.after_snapshot(namespace, cache, revision, entries);
            let applied = answer == Ok::<RuntimeUpdateOutcome, Fault>(
                RuntimeUpdateOutcome::Applied { revision },
            );
            &&& !applied ==> after == model
            &&& applied ==> {
                &&& after.layers.overrides.contains_key(key) <==> entries.contains_key(key)
                &&& entries.contains_key(key) ==> after.layers.overrides[key] == entries[key]
                &&& after.backend_keys.contains(key) <==> entries.contains_key(key)
                &&& after.layers.baseline == model.layers.baseline
                &&& after.layers.mutable == model.layers.mutable
                &&& after.target == model.target
                &&& after.revision == revision
                &&& !after.stale
            }
        }),
{
}

/// An event is well formed exactly where its revision and its size are in bounds, it has the
/// payload of its operation and no other, and names no key twice.
pub proof fn law_which_events_are_well_formed(batch: RuntimeUpdateBatch)
    ensures
        ({
            let numbered = 1 <= batch.revision <= 9_007_199_254_740_991;
            let sized = batch.entries@.len() <= 64 && batch.keys@.len() <= 64;
            let (entries, keys) = (batch.entries@.len(), batch.keys@.len());
            let fitting = match batch.operation {
                RuntimeUpdateOperation::Upsert => entries != 0 && keys == 0,
                RuntimeUpdateOperation::Delete => entries == 0 && keys != 0,
                RuntimeUpdateOperation::Replace => keys == 0,
                RuntimeUpdateOperation::Invalidate => entries == 0 && keys == 0,
                RuntimeUpdateOperation::Resync => entries == 0 && keys == 0,
            };
            let unique = forall|i: int, j: int|
                0 <= i < j < batch.keys@.len() ==> #[trigger] batch.keys@[i]@
                    != #[trigger] batch.keys@[j]@;
            let fault = batch_shape_fault(batch);
            &&& fault is None <==> numbered && sized && fitting && unique
            &&& !numbered ==> fault == Some(
                Fault::InvalidConfig("runtime event revision is invalid"@),
            )
            &&& numbered && !sized ==> fault == Some(
                Fault::InvalidConfig("runtime event exceeds the bounded key count"@),
            )
            &&& numbered && sized && !fitting ==> fault == Some(
                Fault::InvalidConfig("runtime event operation payload is invalid"@),
            )
            &&& numbered && sized && fitting && !unique ==> fault == Some(
                Fault::InvalidConfig("runtime delete event contains duplicate keys"@),
            )
        }),
{
}

/// What an event is answered: refused where its keyspace or its form is not in order, taken
/// for a duplicate where it is not newer than what is known, and otherwise applied only by a
/// healthy controller, one revision after the other. A gap, a resync and a stale controller
/// ask for a snapshot.
pub proof fn law_what_events_are_answered(model: UpdateModel, batch: RuntimeUpdateBatch)
    ensures
        ({
            let answer = model.after_batch(batch).0;
            let foreign = target_fault(model.target, batch.namespace@, batch.cache@);
            let malformed = batch_shape_fault(batch);
            let refused = operation_fault(
                model.layers,
                batch.operation,
                batch.entries@,
                batch.keys@,
            );
            let next_in_order = batch.revision == model.revision + 1 && !model.stale
                && batch.operation != RuntimeUpdateOperation::Resync;
            &&& foreign is Some ==> answer == Err::<RuntimeUpdateOutcome, Fault>(foreign->0)
            &&& foreign is None && malformed is Some ==> answer == Err::<
                RuntimeUpdateOutcome,
                Fault,
            >(malformed->0)
            &&& foreign is None && malformed is None ==> {
                &&& batch.revision <= model.revision ==> answer == Ok::<
                    RuntimeUpdateOutcome,
                    Fault,
                >(RuntimeUpdateOutcome::Duplicate { revision: model.revision })
                &&& batch.revision > model.revision && !next_in_order ==> answer == Ok::<
                    RuntimeUpdateOutcome,
                    Fault,
                >(
                    RuntimeUpdateOutcome::ReconcileRequired {
                        current: model.revision,
                        incoming: batch.revision,
                    },
                )
                &&& next_in_order && refused is Some ==> answer == Err::<
                    RuntimeUpdateOutcome,
                    Fault,
                >(refused->0)
                &&& next_in_order && refused is None ==> answer == Ok::<
                    RuntimeUpdateOutcome,
                    Fault,
                >(RuntimeUpdateOutcome::Applied { revision: batch.revision })
            }
        }),
{
}

/// What an event that was not applied leaves: everything as it was, but a gap or a resync
/// makes a healthy controller stale.
pub proof fn law_what_unapplied_events_leave(model: UpdateModel, batch: RuntimeUpdateBatch)
    ensures
        ({
            let (answer, after) = model.after_batch(batch);
            let reconciles = answer matches Ok(RuntimeUpdateOutcome::ReconcileRequired { .. });
            let applied = answer matches Ok(RuntimeUpdateOutcome::Applied { .. });
            &&& !applied ==> {
                &&& after.layers == model.layers
                &&& after.target == model.target
                &&& after.revision == model.revision
                &&& after.backend_keys == model.backend_keys
                &&& after.stale <==> model.stale || reconciles
            }
            &&& applied ==> after.revision == batch.revision && !after.stale && after.target
                == model.target && after.layers.baseline == model.layers.baseline
                && after.layers.mutable == model.layers.mutable
        }),
{
}

/// What an applied event does to one key, to its override and to what is known of the
/// backend. An upsert gives the keys that it names their new values, a delete takes those
/// that it names away, and both keep every other key as it was; a replace leaves its own
/// entries alone, and an invalidate nothing.
pub proof fn law_what_events_do_to_a_key(
    model: UpdateModel,
    batch: RuntimeUpdateBatch,
    key: Seq<char>,
)
    requires
        model.after_batch(batch).0 matches Ok(RuntimeUpdateOutcome::Applied { .. }),
    ensures
        ({
            let after = model.after_batch(batch).1;
            let before = model.layers.overrides;
            let now = after.layers.overrides;
            let kept = (now.contains_key(key) <==> before.contains_key(key)) && (
            before.contains_key(key) ==> now[key] == before[key]) && (after.backend_keys.contains(
                key,
            ) <==> model.backend_keys.contains(key));
            let given = now.contains_key(key) && now[key] == batch.entries@[key]
                && after.backend_keys.contains(key);
            let gone = !now.contains_key(key) && !after.backend_keys.contains(key);
            let entered = batch.entries@.contains_key(key);
            let named = exists|i: int|
                0 <= i < batch.keys@.len() && #[trigger] batch.keys@[i]@ == key;
            match batch.operation {
                RuntimeUpdateOperation::Upsert => (entered ==> given) && (!entered ==> kept),
                RuntimeUpdateOperation::Delete => (named ==> gone) && (!named ==> kept),
                RuntimeUpdateOperation::Replace => (entered ==> given) && (!entered ==> gone),
                RuntimeUpdateOperation::Invalidate => gone,
                RuntimeUpdateOperation::Resync => false,
            }
        }),
{
    lemma_listed(batch.keys@);
    assert(listed(batch.keys@).contains(key) <==> lists(batch.keys@, key));
}

/// What an event of two kinds asks of its keys: entries are held to what may be overridden,
/// and a deletion to what could be. The other two kinds ask nothing.
pub proof fn law_which_operations_are_refused(
    layers: RuntimeLayers,
    entries: Map<Seq<char>, String>,
    keys: Seq<String>,
)
    ensures
        operation_fault(layers, RuntimeUpdateOperation::Upsert, entries, keys)
            == overrides_fault(layers.mutable, entries),
        operation_fault(layers, RuntimeUpdateOperation::Replace, entries, keys)
            == overrides_fault(layers.mutable, entries),
        operation_fault(layers, RuntimeUpdateOperation::Invalidate, entries, keys) is None,
        keys.len() <= 64 ==> (operation_fault(
            layers,
            RuntimeUpdateOperation::Delete,
            entries,
            keys,
        ) is None <==> (forall|i: int|
            0 <= i < keys.len() ==> admissible(layers.mutable, #[trigger] keys[i]@, None)) && (
        forall|i: int, j: int|
            0 <= i < j < keys.len() ==> #[trigger] keys[i]@ != #[trigger] keys[j]@)),
{
    let patch = removals(keys);
    if keys.len() <= 64 {
        law_what_patches_are_accepted(layers.mutable, patch);
        assert(forall|i: int|
            0 <= i < keys.len() ==> (#[trigger] patch[i]).key == keys[i] && patch[i].value is None);
        let sound = forall|i: int|
            0 <= i < keys.len() ==> admissible(layers.mutable, #[trigger] keys[i]@, None);
        let unique = forall|i: int, j: int|
            0 <= i < j < keys.len() ==> #[trigger] keys[i]@ != #[trigger] keys[j]@;
        if updates_fault(layers.mutable, patch) is None {
            assert forall|i: int| 0 <= i < keys.len() implies admissible(
                layers.mutable,
                #[trigger] keys[i]@,
                None,
            ) by {
                assert(admissible(layers.mutable, patch[i].key@, patch[i].value));
            }
            assert forall|i: int, j: int| 0 <= i < j < keys.len() implies #[trigger] keys[i]@
                != #[trigger] keys[j]@ by {
                assert(patch[i].key@ != patch[j].key@);
            }
        }
        if sound && unique {
            assert forall|i: int| 0 <= i < patch.len() implies admissible(
                layers.mutable,
                (#[trigger] patch[i]).key@,
                patch[i].value,
            ) by {
                assert(admissible(layers.mutable, keys[i]@, None));
            }
            assert forall|i: int, j: int| 0 <= i < j < patch.len() implies (
            #[trigger] patch[i]).key@ != (#[trigger] patch[j]).key@ by {
                assert(keys[i]@ != keys[j]@);
            }
        }
    }
}

/// The first key that may not be deleted is the one that a deletion is refused for.
pub proof fn law_first_bad_key_refuses_a_deletion(
    layers: RuntimeLayers,
    keys: Seq<String>,
    key: String,
    later: Seq<String>,
)
    requires
        keys.len() + 1 + later.len() <= 64,
        operation_fault(layers, RuntimeUpdateOperation::Delete, Map::empty(), keys) is None,
        !admissible(layers.mutable, key@, None),
    ensures
        operation_fault(
            layers,
            RuntimeUpdateOperation::Delete,
            Map::empty(),
            keys.push(key) + later,
        ) == Some(Fault::RuntimeUpdateRejected(key@)),
{
    law_first_bad_update_refuses_a_patch(
        layers.mutable,
        removals(keys),
        RuntimeValueUpdate { key, value: None },
        removals(later),
    );
    assert(removals(keys.push(key) + later) =~= removals(keys).push(
        RuntimeValueUpdate { key, value: None },
    ) + removals(later));
}

/// A new controller has seen nothing: no revision, no staleness and no key of its backend, and
/// the values are what they were.
pub proof fn law_new_controllers_have_seen_nothing(
    layers: RuntimeLayers,
    target: Option<(Seq<char>, Seq<char>)>,
    key: Seq<char>,
)
    ensures
        untouched(layers, target).layers == layers,
        untouched(layers, target).target == target,
        untouched(layers, target).revision == 0,
        !untouched(layers, target).stale,
        !untouched(layers, target).backend_keys.contains(key),
{
}

/// What answers an expected result is that result.
pub proof fn law_answers_are_exact(
    result: Result<RuntimeUpdateOutcome, SidecarError>,
    expected: Result<RuntimeUpdateOutcome, Fault>,
)
    requires
        answers(result, expected),
    ensures
        result is Ok <==> expected is Ok,
        result matches Ok(outcome) ==> expected->Ok_0 == outcome,
        result matches Err(error) ==> expected->Err_0 == error@,
{
}

} // verus!
