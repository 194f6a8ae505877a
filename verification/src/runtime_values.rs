//! Values that a backend may override while a sidecar runs.
//!
//! There are two layers. The baseline comes from checked-in configuration and never
//! changes; the overrides come from a backend. An override wins while it is there,
//! and taking it away brings the baseline back. Only keys on the allowlist take
//! part, and a key that looks like a secret can never be on it.

use crate::error::{reports, Fault, SidecarError};
use crate::text::{
    after, before, byte_len, byte_length, chars_of, chars_spell, ends_with, has_suffix,
    is_ascii_upper, is_digit, law_before_and_after, law_split, law_starts_and_ends, pieces_view,
    same_text, split, split_at_char,
};
use crate::text_map::{
    ascending, entries_map, has_key, lemma_ascending_entries, lemma_precedes_asymmetric,
    lemma_precedes_irreflexive, lemma_precedes_total, lemma_precedes_transitive, precedes, TextMap,
    TextSet,
};
use vstd::prelude::*;

verus! {

pub const MAX_RUNTIME_KEYS: usize = 64;

pub const MAX_RUNTIME_KEY_BYTES: usize = 128;

pub const MAX_RUNTIME_VALUE_BYTES: usize = 16 * 1024;

/// One atomic runtime override. `None` removes the backend override and restores
/// the immutable configured baseline value, when one exists.
#[derive(Debug, PartialEq, Eq)]
pub struct RuntimeValueUpdate {
    pub key: String,
    pub value: Option<String>,
}

impl RuntimeValueUpdate {
    pub fn set(key: &str, value: &str) -> (update: Self)
        ensures
            update.key@ == key@,
            update.value is Some,
            update.value->0@ == value@,
    {
        RuntimeValueUpdate { key: key.to_owned(), value: Some(value.to_owned()) }
    }

    pub fn remove(key: &str) -> (update: Self)
        ensures
            update.key@ == key@,
            update.value is None,
    {
        RuntimeValueUpdate { key: key.to_owned(), value: None }
    }
}

impl Clone for RuntimeValueUpdate {
    fn clone(&self) -> (copy: Self)
        ensures
            copy == *self,
    {
        let value = match &self.value {
            Some(value) => Some(value.clone()),
            None => None,
        };
        RuntimeValueUpdate { key: self.key.clone(), value }
    }
}

/// Upper-case letters, digits and underscores, not starting with a digit.
pub open spec fn well_shaped(key: Seq<char>) -> bool {
    &&& 0 < key.len() <= MAX_RUNTIME_KEY_BYTES
    &&& is_ascii_upper(key[0]) || key[0] == '_'
    &&& forall|i: int|
        0 <= i < key.len() ==> is_ascii_upper(#[trigger] key[i]) || is_digit(key[i]) || key[i]
            == '_'
}

/// A word that names a secret.
pub open spec fn secret_word(word: Seq<char>) -> bool {
    ||| word == "PASSWORD"@
    ||| word == "PASS"@
    ||| word == "TOKEN"@
    ||| word == "SECRET"@
    ||| word == "CREDENTIAL"@
    ||| word == "CREDENTIALS"@
    ||| word == "COOKIE"@
    ||| word == "PRIVATE"@
    ||| word == "AUTHORIZATION"@
}

/// A key that looks like it holds a secret: a connection string, a key, or a secret
/// word among its words.
pub open spec fn sensitive(key: Seq<char>) -> bool {
    ||| key == "REDIS_URL"@
    ||| key == "DATABASE_URL"@
    ||| ends_with(key, "_DSN"@)
    ||| ends_with(key, "_KEY"@)
    ||| exists|i: int| 0 <= i < split(key, '_').len() && secret_word(#[trigger] split(key, '_')[i])
}

/// A key that may take part in runtime updates at all.
pub open spec fn runtime_key(key: Seq<char>) -> bool {
    well_shaped(key) && !sensitive(key)
}

/// `key` may be given `value`, or lose its override where there is none.
pub open spec fn admissible(
    mutable: Set<Seq<char>>,
    key: Seq<char>,
    value: Option<String>,
) -> bool {
    &&& runtime_key(key)
    &&& mutable.contains(key)
    &&& value matches Some(text) ==> byte_length(text@) <= MAX_RUNTIME_VALUE_BYTES
}

/// What is known of the runtime values: the allowlist and the two layers.
#[verifier::ext_equal]
pub struct RuntimeLayers {
    pub mutable: Set<Seq<char>>,
    pub baseline: Map<Seq<char>, String>,
    pub overrides: Map<Seq<char>, String>,
}

/// Every entry of `layer` is admissible.
pub open spec fn layer_admissible(
    mutable: Set<Seq<char>>,
    layer: Map<Seq<char>, String>,
) -> bool {
    forall|key: Seq<char>| #[trigger]
        layer.contains_key(key) ==> admissible(mutable, key, Some(layer[key]))
}

impl RuntimeLayers {
    /// The allowlist is bounded and holds runtime keys only; both layers keep to it.
    pub open spec fn well_formed(self) -> bool {
        &&& self.mutable.finite()
        &&& self.mutable.len() <= MAX_RUNTIME_KEYS
        &&& forall|key: Seq<char>| #[trigger] self.mutable.contains(key) ==> runtime_key(key)
        &&& layer_admissible(self.mutable, self.baseline)
        &&& layer_admissible(self.mutable, self.overrides)
    }

    /// The values in force: an override wins over the baseline.
    pub open spec fn effective(self) -> Map<Seq<char>, String> {
        self.baseline.union_prefer_right(self.overrides)
    }

    /// The same allowlist and baseline under other overrides.
    pub open spec fn overridden_by(self, overrides: Map<Seq<char>, String>) -> RuntimeLayers {
        RuntimeLayers { mutable: self.mutable, baseline: self.baseline, overrides }
    }
}

/// One of `keys` reads `key`.
pub open spec fn lists(keys: Seq<String>, key: Seq<char>) -> bool {
    exists|i: int| 0 <= i < keys.len() && #[trigger] keys[i]@ == key
}

/// The set of the texts in `keys`.
pub open spec fn listed(keys: Seq<String>) -> Set<Seq<char>>
    decreases keys.len(),
{
    if keys.len() == 0 {
        Set::empty()
    } else {
        listed(keys.drop_last()).insert(keys.last()@)
    }
}

/// The first thing that is wrong with an allowlist.
pub open spec fn allowlist_fault(keys: Seq<String>) -> Option<Fault>
    decreases keys.len(),
{
    if keys.len() == 0 {
        None
    } else if let Some(fault) = allowlist_fault(keys.drop_last()) {
        Some(fault)
    } else if !runtime_key(keys.last()@) {
        Some(Fault::RuntimeUpdateRejected(keys.last()@))
    } else if keys.len() > MAX_RUNTIME_KEYS || listed(keys.drop_last()).contains(keys.last()@) {
        Some(Fault::InvalidConfig("runtime mutable keys must be unique and bounded"@))
    } else {
        None
    }
}

/// The first thing that is wrong with a list of baseline values.
pub open spec fn baseline_fault(
    mutable: Set<Seq<char>>,
    initial: Seq<(String, String)>,
) -> Option<Fault>
    decreases initial.len(),
{
    if initial.len() == 0 {
        None
    } else if let Some(fault) = baseline_fault(mutable, initial.drop_last()) {
        Some(fault)
    } else if !admissible(mutable, initial.last().0@, Some(initial.last().1)) {
        Some(Fault::RuntimeUpdateRejected(initial.last().0@))
    } else if initial.len() > MAX_RUNTIME_KEYS || entries_map(initial.drop_last()).contains_key(
        initial.last().0@,
    ) {
        Some(Fault::InvalidConfig("runtime baseline values must be unique and bounded"@))
    } else {
        None
    }
}

/// The first thing that is wrong with an allowlist and its baseline.
pub open spec fn values_fault(keys: Seq<String>, initial: Seq<(String, String)>) -> Option<Fault> {
    match allowlist_fault(keys) {
        Some(fault) => Some(fault),
        None => baseline_fault(listed(keys), initial),
    }
}

/// One of `updates` is for `key`.
pub open spec fn updates_key(updates: Seq<RuntimeValueUpdate>, key: Seq<char>) -> bool {
    exists|i: int| 0 <= i < updates.len() && #[trigger] updates[i].key@ == key
}

/// The first update that may not be applied.
pub open spec fn updates_fault(
    mutable: Set<Seq<char>>,
    updates: Seq<RuntimeValueUpdate>,
) -> Option<Fault>
    decreases updates.len(),
{
    if updates.len() == 0 {
        None
    } else if let Some(fault) = updates_fault(mutable, updates.drop_last()) {
        Some(fault)
    } else if updates_key(updates.drop_last(), updates.last().key@) || !admissible(
        mutable,
        updates.last().key@,
        updates.last().value,
    ) {
        Some(Fault::RuntimeUpdateRejected(updates.last().key@))
    } else {
        None
    }
}

/// The first thing that is wrong with a patch.
pub open spec fn patch_fault(
    mutable: Set<Seq<char>>,
    updates: Seq<RuntimeValueUpdate>,
) -> Option<Fault> {
    if updates.len() > MAX_RUNTIME_KEYS {
        Some(Fault::InvalidConfig("runtime patch exceeds the bounded key count"@))
    } else {
        updates_fault(mutable, updates)
    }
}

/// `overrides` after `updates`, one after the other.
pub open spec fn patched_overrides(
    overrides: Map<Seq<char>, String>,
    updates: Seq<RuntimeValueUpdate>,
) -> Map<Seq<char>, String>
    decreases updates.len(),
{
    if updates.len() == 0 {
        overrides
    } else {
        let before = patched_overrides(overrides, updates.drop_last());
        match updates.last().value {
            Some(value) => before.insert(updates.last().key@, value),
            None => before.remove(updates.last().key@),
        }
    }
}

/// `key` is the smallest key of `next` that is not admissible.
pub open spec fn first_rejected(
    mutable: Set<Seq<char>>,
    next: Map<Seq<char>, String>,
    key: Seq<char>,
) -> bool {
    &&& next.contains_key(key)
    &&& !admissible(mutable, key, Some(next[key]))
    &&& forall|other: Seq<char>| #[trigger]
        next.contains_key(other) && precedes(other, key) ==> admissible(
            mutable,
            other,
            Some(next[other]),
        )
}

/// The first thing that is wrong with a whole set of overrides, by the order of its keys.
pub open spec fn overrides_fault(
    mutable: Set<Seq<char>>,
    next: Map<Seq<char>, String>,
) -> Option<Fault> {
    if next.len() > MAX_RUNTIME_KEYS {
        Some(Fault::InvalidConfig("runtime override set exceeds the bounded key count"@))
    } else if layer_admissible(mutable, next) {
        None
    } else {
        Some(
            Fault::RuntimeUpdateRejected(
                choose|key: Seq<char>| first_rejected(mutable, next, key),
            ),
        )
    }
}

fn is_key_char(c: char) -> (allowed: bool)
    ensures
        allowed == (is_ascii_upper(c) || is_digit(c) || c == '_'),
{
    ('A' <= c && c <= 'Z') || ('0' <= c && c <= '9') || c == '_'
}

fn has_key_shape(key: &str) -> (shaped: bool)
    ensures
        shaped == well_shaped(key@),
{
    let chars = chars_of(key);
    if chars.len() == 0 || chars.len() > MAX_RUNTIME_KEY_BYTES {
        return false;
    }
    if !is_key_char(chars[0]) || ('0' <= chars[0] && chars[0] <= '9') {
        return false;
    }
    let mut i: usize = 0;
    while i < chars.len()
        invariant
            chars@ == key@,
            i <= chars@.len(),
            forall|j: int|
                0 <= j < i ==> is_ascii_upper(#[trigger] key@[j]) || is_digit(key@[j]) || key@[j]
                    == '_',
        decreases chars@.len() - i,
    {
        if !is_key_char(chars[i]) {
            return false;
        }
        i = i + 1;
    }
    true
}

fn is_secret_word(word: &[char]) -> (secret: bool)
    ensures
        secret == secret_word(word@),
{
    chars_spell(word, "PASSWORD") || chars_spell(word, "PASS") || chars_spell(word, "TOKEN")
        || chars_spell(word, "SECRET") || chars_spell(word, "CREDENTIAL") || chars_spell(
        word,
        "CREDENTIALS",
    ) || chars_spell(word, "COOKIE") || chars_spell(word, "PRIVATE") || chars_spell(
        word,
        "AUTHORIZATION",
    )
}

/// Whether `key` looks like it holds a secret.
pub fn is_sensitive_runtime_key(key: &str) -> (secret: bool)
    ensures
        secret == sensitive(key@),
{
    let chars = chars_of(key);
    if same_text(key, "REDIS_URL") || same_text(key, "DATABASE_URL") || has_suffix(
        chars.as_slice(),
        "_DSN",
    ) || has_suffix(chars.as_slice(), "_KEY") {
        return true;
    }
    let words = split_at_char(chars.as_slice(), '_');
    let mut i: usize = 0;
    while i < words.len()
        invariant
            pieces_view(words@) == split(key@, '_'),
            i <= words@.len(),
            forall|j: int| 0 <= j < i ==> !secret_word(#[trigger] split(key@, '_')[j]),
        decreases words@.len() - i,
    {
        assert(split(key@, '_')[i as int] == words@[i as int]@);
        if is_secret_word(words[i]) {
            return true;
        }
        i = i + 1;
    }
    false
}

/// Admit a key by its shape and by what it seems to hold.
pub fn validate_runtime_key(key: &str) -> (outcome: Result<(), SidecarError>)
    ensures
        reports(
            outcome,
            if runtime_key(key@) {
                None
            } else {
                Some(Fault::RuntimeUpdateRejected(key@))
            },
        ),
{
    if !has_key_shape(key) || is_sensitive_runtime_key(key) {
        return Err(SidecarError::RuntimeUpdateRejected { key: key.to_owned() });
    }
    Ok(())
}

/// Admit one override, or the removal of one.
pub fn validate_update(mutable: &TextSet, key: &str, value: &Option<String>) -> (outcome: Result<
    (),
    SidecarError,
>)
    ensures
        reports(
            outcome,
            if admissible(mutable@, key@, *value) {
                None
            } else {
                Some(Fault::RuntimeUpdateRejected(key@))
            },
        ),
{
    if let Err(error) = validate_runtime_key(key) {
        return Err(error);
    }
    if !mutable.contains(key) {
        return Err(SidecarError::RuntimeUpdateRejected { key: key.to_owned() });
    }
    if let Some(text) = value {
        if byte_len(text.as_str()) > MAX_RUNTIME_VALUE_BYTES {
            return Err(SidecarError::RuntimeUpdateRejected { key: key.to_owned() });
        }
    }
    Ok(())
}

/// The set of some keys holds each of them and nothing else.
pub proof fn lemma_listed(keys: Seq<String>)
    ensures
        listed(keys).finite(),
        listed(keys).len() <= keys.len(),
        forall|key: Seq<char>| #[trigger] listed(keys).contains(key) <==> lists(keys, key),
    decreases keys.len(),
{
    if keys.len() > 0 {
        let init = keys.drop_last();
        lemma_listed(init);
        assert forall|key: Seq<char>| #[trigger] listed(keys).contains(key) <==> lists(
            keys,
            key,
        ) by {
            if lists(init, key) {
                let i = choose|i: int| 0 <= i < init.len() && #[trigger] init[i]@ == key;
                assert(keys[i]@ == key);
            }
            if lists(keys, key) {
                let i = choose|i: int| 0 <= i < keys.len() && #[trigger] keys[i]@ == key;
                if i < init.len() {
                    assert(init[i]@ == key);
                }
            }
            if key == keys.last()@ {
                assert(keys[keys.len() - 1]@ == key);
            }
        }
    }
}

/// An allowlist without a fault holds runtime keys only.
pub proof fn lemma_allowlist_sound(keys: Seq<String>, key: Seq<char>)
    requires
        allowlist_fault(keys) is None,
        listed(keys).contains(key),
    ensures
        runtime_key(key),
    decreases keys.len(),
{
    if keys.len() > 0 && key != keys.last()@ {
        lemma_allowlist_sound(keys.drop_last(), key);
    }
}

proof fn lemma_allowlist_prefix(keys: Seq<String>, n: int)
    requires
        0 <= n <= keys.len(),
        allowlist_fault(keys.take(n)) is Some,
    ensures
        allowlist_fault(keys) == allowlist_fault(keys.take(n)),
    decreases keys.len(),
{
    if n == keys.len() {
        assert(keys.take(n) =~= keys);
    } else {
        assert(keys.drop_last().take(n) =~= keys.take(n));
        lemma_allowlist_prefix(keys.drop_last(), n);
    }
}

proof fn lemma_baseline_prefix(mutable: Set<Seq<char>>, initial: Seq<(String, String)>, n: int)
    requires
        0 <= n <= initial.len(),
        baseline_fault(mutable, initial.take(n)) is Some,
    ensures
        baseline_fault(mutable, initial) == baseline_fault(mutable, initial.take(n)),
    decreases initial.len(),
{
    if n == initial.len() {
        assert(initial.take(n) =~= initial);
    } else {
        assert(initial.drop_last().take(n) =~= initial.take(n));
        lemma_baseline_prefix(mutable, initial.drop_last(), n);
    }
}

proof fn lemma_updates_prefix(mutable: Set<Seq<char>>, updates: Seq<RuntimeValueUpdate>, n: int)
    requires
        0 <= n <= updates.len(),
        updates_fault(mutable, updates.take(n)) is Some,
    ensures
        updates_fault(mutable, updates) == updates_fault(mutable, updates.take(n)),
    decreases updates.len(),
{
    if n == updates.len() {
        assert(updates.take(n) =~= updates);
    } else {
        assert(updates.drop_last().take(n) =~= updates.take(n));
        lemma_updates_prefix(mutable, updates.drop_last(), n);
    }
}

/// The allowlist that `keys` spell out.
fn allowlist(keys: Vec<String>) -> (outcome: Result<TextSet, SidecarError>)
    ensures
        reports(outcome, allowlist_fault(keys@)),
        outcome matches Ok(allowed) ==> {
            &&& allowed@ == listed(keys@)
            &&& allowed@.len() <= MAX_RUNTIME_KEYS
            &&& forall|key: Seq<char>| #[trigger] allowed@.contains(key) ==> runtime_key(key)
        },
{
    let mut allowed = TextSet::new();
    let mut i: usize = 0;
    assert(keys@.take(0) =~= Seq::<String>::empty());
    while i < keys.len()
        invariant
            i <= keys@.len(),
            allowlist_fault(keys@.take(i as int)) is None,
            allowed@ == listed(keys@.take(i as int)),
            allowed@.finite(),
            allowed@.len() == i <= MAX_RUNTIME_KEYS,
            forall|key: Seq<char>| #[trigger] allowed@.contains(key) ==> runtime_key(key),
        decreases keys@.len() - i,
    {
        let key = &keys[i];
        proof {
            assert(keys@.take(i + 1).drop_last() =~= keys@.take(i as int));
            assert(keys@.take(i + 1).last() == key);
            if allowlist_fault(keys@.take(i + 1)) is Some {
                lemma_allowlist_prefix(keys@, i + 1);
            }
        }
        if let Err(error) = validate_runtime_key(key.as_str()) {
            return Err(error);
        }
        if allowed.len() >= MAX_RUNTIME_KEYS || allowed.contains(key.as_str()) {
            return Err(
                SidecarError::InvalidConfig {
                    reason: "runtime mutable keys must be unique and bounded",
                },
            );
        }
        allowed.insert(key.clone());
        i = i + 1;
    }
    assert(keys@.take(keys@.len() as int) =~= keys@);
    Ok(allowed)
}

/// The baseline that `initial` spells out.
fn baseline_layer(allowed: &TextSet, initial: Vec<(String, String)>) -> (outcome: Result<
    TextMap<String>,
    SidecarError,
>)
    ensures
        reports(outcome, baseline_fault(allowed@, initial@)),
        outcome matches Ok(baseline) ==> baseline@ == entries_map(initial@) && layer_admissible(
            allowed@,
            baseline@,
        ),
{
    let mut baseline: TextMap<String> = TextMap::new();
    let mut i: usize = 0;
    assert(initial@.take(0) =~= Seq::<(String, String)>::empty());
    while i < initial.len()
        invariant
            i <= initial@.len(),
            baseline_fault(allowed@, initial@.take(i as int)) is None,
            baseline@ == entries_map(initial@.take(i as int)),
            baseline@.dom().finite(),
            baseline@.len() == i <= MAX_RUNTIME_KEYS,
            layer_admissible(allowed@, baseline@),
        decreases initial@.len() - i,
    {
        let entry = &initial[i];
        proof {
            assert(initial@.take(i + 1).drop_last() =~= initial@.take(i as int));
            assert(initial@.take(i + 1).last() == entry);
            if baseline_fault(allowed@, initial@.take(i + 1)) is Some {
                lemma_baseline_prefix(allowed@, initial@, i + 1);
            }
        }
        let value = Some(entry.1.clone());
        if let Err(error) = validate_update(allowed, entry.0.as_str(), &value) {
            return Err(error);
        }
        if baseline.len() >= MAX_RUNTIME_KEYS || baseline.contains_key(entry.0.as_str()) {
            return Err(
                SidecarError::InvalidConfig {
                    reason: "runtime baseline values must be unique and bounded",
                },
            );
        }
        let ghost before = baseline@;
        baseline.insert(entry.0.clone(), entry.1.clone());
        assert(baseline@.dom() =~= before.dom().insert(entry.0@));
        i = i + 1;
    }
    assert(initial@.take(initial@.len() as int) =~= initial@);
    Ok(baseline)
}

/// Runtime values for adapters that feed backend updates to a sidecar. The baseline
/// is immutable; backend updates live in a separate override map and never touch
/// the process environment.
#[derive(Debug)]
pub struct RuntimeValues {
    mutable: TextSet,
    baseline: TextMap<String>,
    overrides: TextMap<String>,
}

impl View for RuntimeValues {
    type V = RuntimeLayers;

    closed spec fn view(&self) -> RuntimeLayers {
        RuntimeLayers {
            mutable: self.mutable@,
            baseline: self.baseline@,
            overrides: self.overrides@,
        }
    }
}

impl Default for RuntimeValues {
    /// Values of which none can be set.
    fn default() -> (values: Self)
        ensures
            values@ == (RuntimeLayers {
                mutable: Set::empty(),
                baseline: Map::empty(),
                overrides: Map::empty(),
            }),
    {
        RuntimeValues {
            mutable: TextSet::new(),
            baseline: TextMap::new(),
            overrides: TextMap::new(),
        }
    }
}

impl RuntimeValues {
    #[verifier::type_invariant]
    pub open spec fn keeps_to_allowlist(self) -> bool {
        self@.well_formed()
    }

    /// Values with the allowlist `mutable` and the baseline `initial`, none overridden.
    pub fn new(mutable: Vec<String>, initial: Vec<(String, String)>) -> (outcome: Result<
        Self,
        SidecarError,
    >)
        ensures
            reports(outcome, values_fault(mutable@, initial@)),
            outcome matches Ok(values) ==> values@.well_formed() && values@ == (RuntimeLayers {
                mutable: listed(mutable@),
                baseline: entries_map(initial@),
                overrides: Map::empty(),
            }),
    {
        proof {
            lemma_listed(mutable@);
        }
        let allowed = match allowlist(mutable) {
            Ok(allowed) => allowed,
            Err(error) => return Err(error),
        };
        let baseline = match baseline_layer(&allowed, initial) {
            Ok(baseline) => baseline,
            Err(error) => return Err(error),
        };
        Ok(RuntimeValues { mutable: allowed, baseline, overrides: TextMap::new() })
    }

    pub fn is_mutable(&self, key: &str) -> (found: bool)
        ensures
            found == self@.mutable.contains(key@),
    {
        self.mutable.contains(key)
    }

    pub fn mutable_keys(&self) -> (keys: TextSet)
        ensures
            keys@ == self@.mutable,
    {
        self.mutable.clone()
    }

    /// The value in force for `key`.
    pub fn get(&self, key: &str) -> (value: Option<String>)
        ensures
            value == (if self@.effective().contains_key(key@) {
                Some(self@.effective()[key@])
            } else {
                None::<String>
            }),
    {
        if let Some(value) = self.overrides.get(key) {
            return Some(value.clone());
        }
        match self.baseline.get(key) {
            Some(value) => Some(value.clone()),
            None => None,
        }
    }

    /// All values in force.
    pub fn snapshot(&self) -> (values: TextMap<String>)
        ensures
            self@.well_formed(),
            values@ == self@.effective(),
    {
        proof {
            use_type_invariant(self);
        }
        layered(&self.baseline, &self.overrides)
    }

    /// Check a patch without applying it.
    pub fn validate_patch(&self, updates: &[RuntimeValueUpdate]) -> (outcome: Result<
        (),
        SidecarError,
    >)
        ensures
            reports(outcome, patch_fault(self@.mutable, updates@)),
    {
        if updates.len() > MAX_RUNTIME_KEYS {
            return Err(
                SidecarError::InvalidConfig {
                    reason: "runtime patch exceeds the bounded key count",
                },
            );
        }
        let mut seen = TextSet::new();
        let mut i: usize = 0;
        assert(updates@.take(0) =~= Seq::<RuntimeValueUpdate>::empty());
        while i < updates.len()
            invariant
                i <= updates@.len() <= MAX_RUNTIME_KEYS,
                updates_fault(self@.mutable, updates@.take(i as int)) is None,
                forall|key: Seq<char>| #[trigger]
                    seen@.contains(key) <==> updates_key(updates@.take(i as int), key),
            decreases updates@.len() - i,
        {
            let update = &updates[i];
            let ghost passed = updates@.take(i as int);
            let ghost reached = updates@.take(i + 1);
            proof {
                assert(reached.drop_last() =~= passed);
                assert(reached.last() == update);
                if updates_fault(self@.mutable, reached) is Some {
                    lemma_updates_prefix(self@.mutable, updates@, i + 1);
                }
            }
            if seen.contains(update.key.as_str()) {
                return Err(SidecarError::RuntimeUpdateRejected { key: update.key.clone() });
            }
            if let Err(error) = validate_update(&self.mutable, update.key.as_str(), &update.value) {
                return Err(error);
            }
            seen.insert(update.key.clone());
            proof {
                assert forall|key: Seq<char>| #[trigger] seen@.contains(key) <==> updates_key(
                    reached,
                    key,
                ) by {
                    if updates_key(passed, key) {
                        let j = choose|j: int|
                            0 <= j < passed.len() && #[trigger] passed[j].key@ == key;
                        assert(reached[j].key@ == key);
                    }
                    if updates_key(reached, key) {
                        let j = choose|j: int|
                            0 <= j < reached.len() && #[trigger] reached[j].key@ == key;
                        if j < i {
                            assert(passed[j].key@ == key);
                        }
                    }
                    if key == update.key@ {
                        assert(reached[i as int].key@ == key);
                    }
                }
            }
            i = i + 1;
        }
        assert(updates@.take(updates@.len() as int) =~= updates@);
        Ok(())
    }

    /// Apply a bounded patch atomically. Every key/value is validated before anything
    /// changes, so a rejected update cannot partially mutate state.
    pub fn apply_patch(&mut self, updates: &[RuntimeValueUpdate]) -> (outcome: Result<
        (),
        SidecarError,
    >)
        ensures
            reports(outcome, patch_fault(old(self)@.mutable, updates@)),
            final(self)@ == (if outcome is Ok {
                old(self)@.overridden_by(patched_overrides(old(self)@.overrides, updates@))
            } else {
                old(self)@
            }),
            final(self)@.well_formed(),
    {
        proof {
            use_type_invariant(&*self);
        }
        if let Err(error) = self.validate_patch(updates) {
            return Err(error);
        }
        proof {
            lemma_patch_admissible(self@.mutable, self@.overrides, updates@);
        }
        let next = patched(&self.overrides, updates);
        self.overrides = next;
        Ok(())
    }

    /// Atomically replace the entire backend override map. The bound is on the map's
    /// keys, so replacing a full map by another full one stays within it.
    pub fn replace_overrides(&mut self, next: &TextMap<String>) -> (outcome: Result<
        (),
        SidecarError,
    >)
        ensures
            reports(outcome, overrides_fault(old(self)@.mutable, next@)),
            final(self)@ == (if outcome is Ok {
                old(self)@.overridden_by(next@)
            } else {
                old(self)@
            }),
            final(self)@.well_formed(),
    {
        proof {
            use_type_invariant(&*self);
        }
        if next.len() > MAX_RUNTIME_KEYS {
            return Err(
                SidecarError::InvalidConfig {
                    reason: "runtime override set exceeds the bounded key count",
                },
            );
        }
        if let Err(error) = validate_layer(&self.mutable, next) {
            return Err(error);
        }
        self.overrides = next.clone();
        Ok(())
    }
}

/// Check every entry of `next`, in the order of its keys.
fn validate_layer(mutable: &TextSet, next: &TextMap<String>) -> (outcome: Result<(), SidecarError>)
    ensures
        outcome is Ok <==> layer_admissible(mutable@, next@),
        outcome matches Err(error) ==> error@ == Fault::RuntimeUpdateRejected(
            choose|key: Seq<char>| first_rejected(mutable@, next@, key),
        ),
{
    let entries = next.entries();
    proof {
        lemma_ascending_entries(entries@);
    }
    let mut i: usize = 0;
    while i < entries.len()
        invariant
            i <= entries@.len(),
            ascending(entries@),
            entries_map(entries@) == next@,
            forall|key: Seq<char>| #[trigger] next@.contains_key(key) <==> has_key(entries@, key),
            forall|j: int|
                0 <= j < entries@.len() ==> next@.contains_key(#[trigger] entries@[j].0@)
                    && next@[entries@[j].0@] == entries@[j].1,
            forall|j: int|
                0 <= j < i ==> admissible(
                    mutable@,
                    #[trigger] entries@[j].0@,
                    Some(entries@[j].1),
                ),
        decreases entries@.len() - i,
    {
        let value = Some(entries[i].1.clone());
        if let Err(error) = validate_update(mutable, entries[i].0.as_str(), &value) {
            proof {
                lemma_first_inadmissible_entry(mutable@, entries@, i as int);
            }
            return Err(error);
        }
        i = i + 1;
    }
    proof {
        assert forall|key: Seq<char>| #[trigger] next@.contains_key(key) implies admissible(
            mutable@,
            key,
            Some(next@[key]),
        ) by {
            let j = choose|j: int| 0 <= j < entries@.len() && #[trigger] entries@[j].0@ == key;
            assert(entries@[j].0@ == key);
        }
    }
    Ok(())
}

/// Of entries that go up, the first that is not admissible has the first rejected key.
pub proof fn lemma_first_inadmissible_entry(
    mutable: Set<Seq<char>>,
    entries: Seq<(String, String)>,
    i: int,
)
    requires
        ascending(entries),
        0 <= i < entries.len(),
        !admissible(mutable, entries[i].0@, Some(entries[i].1)),
        forall|j: int|
            0 <= j < i ==> admissible(mutable, #[trigger] entries[j].0@, Some(entries[j].1)),
    ensures
        !layer_admissible(mutable, entries_map(entries)),
        entries[i].0@ == (choose|key: Seq<char>|
            first_rejected(mutable, entries_map(entries), key)),
{
    lemma_ascending_entries(entries);
    let next = entries_map(entries);
    let key = entries[i].0@;
    assert(next.contains_key(key) && !admissible(mutable, key, Some(next[key])));
    assert forall|other: Seq<char>| #[trigger]
        next.contains_key(other) && precedes(other, key) implies admissible(
        mutable,
        other,
        Some(next[other]),
    ) by {
        let j = choose|j: int| 0 <= j < entries.len() && #[trigger] entries[j].0@ == other;
        if j >= i {
            lemma_precedes_asymmetric(other, key);
            if j > i {
                assert(precedes(entries[i].0@, entries[j].0@));
            }
        }
    }
    assert(first_rejected(mutable, next, key));
    lemma_first_rejected_unique(
        mutable,
        next,
        key,
        choose|key: Seq<char>| first_rejected(mutable, next, key),
    );
}

proof fn lemma_first_rejected_unique(
    mutable: Set<Seq<char>>,
    next: Map<Seq<char>, String>,
    a: Seq<char>,
    b: Seq<char>,
)
    requires
        first_rejected(mutable, next, a),
        first_rejected(mutable, next, b),
    ensures
        a == b,
{
    lemma_precedes_total(a, b);
}

/// What a patch says of each single key.
proof fn lemma_patched(
    mutable: Set<Seq<char>>,
    overrides: Map<Seq<char>, String>,
    updates: Seq<RuntimeValueUpdate>,
)
    requires
        updates_fault(mutable, updates) is None,
    ensures
        forall|key: Seq<char>|
            !updates_key(updates, key) ==> (#[trigger] patched_overrides(
                overrides,
                updates,
            ).contains_key(key) <==> overrides.contains_key(key)),
        forall|key: Seq<char>|
            !updates_key(updates, key) && overrides.contains_key(key)
                ==> #[trigger] patched_overrides(overrides, updates)[key] == overrides[key],
        forall|i: int|
            0 <= i < updates.len() ==> {
                let after = patched_overrides(overrides, updates);
                &&& admissible(mutable, (#[trigger] updates[i]).key@, updates[i].value)
                &&& after.contains_key(updates[i].key@) <==> updates[i].value is Some
                &&& updates[i].value matches Some(value) ==> after[updates[i].key@] == value
            },
    decreases updates.len(),
{
    if updates.len() > 0 {
        let init = updates.drop_last();
        let last = updates.last();
        lemma_patched(mutable, overrides, init);
        let before = patched_overrides(overrides, init);
        let after = patched_overrides(overrides, updates);
        assert forall|key: Seq<char>| !updates_key(updates, key) implies (
        #[trigger] after.contains_key(key) <==> overrides.contains_key(key)) && (
        overrides.contains_key(key) ==> after[key] == overrides[key]) by {
            assert(!updates_key(init, key)) by {
                if updates_key(init, key) {
                    let i = choose|i: int| 0 <= i < init.len() && #[trigger] init[i].key@ == key;
                    assert(updates[i].key@ == key);
                }
            }
            assert(updates[updates.len() - 1].key@ != key);
            assert(before.contains_key(key) <==> overrides.contains_key(key));
        }
        assert forall|i: int| 0 <= i < updates.len() implies {
            &&& admissible(mutable, (#[trigger] updates[i]).key@, updates[i].value)
            &&& after.contains_key(updates[i].key@) <==> updates[i].value is Some
            &&& updates[i].value matches Some(value) ==> after[updates[i].key@] == value
        } by {
            if i < init.len() {
                assert(init[i] == updates[i]);
                assert(updates_key(init, init[i].key@));
            } else {
                assert(updates[i] == last);
            }
        }
    }
}

proof fn lemma_patch_admissible(
    mutable: Set<Seq<char>>,
    overrides: Map<Seq<char>, String>,
    updates: Seq<RuntimeValueUpdate>,
)
    requires
        layer_admissible(mutable, overrides),
        updates_fault(mutable, updates) is None,
    ensures
        layer_admissible(mutable, patched_overrides(overrides, updates)),
{
    lemma_patched(mutable, overrides, updates);
    let after = patched_overrides(overrides, updates);
    assert forall|key: Seq<char>| #[trigger] after.contains_key(key) implies admissible(
        mutable,
        key,
        Some(after[key]),
    ) by {
        if updates_key(updates, key) {
            let i = choose|i: int| 0 <= i < updates.len() && #[trigger] updates[i].key@ == key;
            assert(updates[i].value is Some);
        } else {
            assert(overrides.contains_key(key));
        }
    }
}

/// `base` with `overlay` applied on top: overlay entries win, and neither input is
/// touched.
fn layered(base: &TextMap<String>, overlay: &TextMap<String>) -> (values: TextMap<String>)
    ensures
        values@ == base@.union_prefer_right(overlay@),
{
    let mut values = base.clone();
    let entries = overlay.entries();
    let mut i: usize = 0;
    assert(entries@.take(0) =~= Seq::<(String, String)>::empty());
    assert(base@.union_prefer_right(entries_map(entries@.take(0))) =~= base@);
    while i < entries.len()
        invariant
            i <= entries@.len(),
            values@ == base@.union_prefer_right(entries_map(entries@.take(i as int))),
        decreases entries@.len() - i,
    {
        let ghost before = values@;
        values.insert(entries[i].0.clone(), entries[i].1.clone());
        proof {
            let reached = entries@.take(i + 1);
            assert(reached.drop_last() =~= entries@.take(i as int));
            assert(values@ =~= base@.union_prefer_right(entries_map(reached)));
        }
        i = i + 1;
    }
    assert(entries@.take(entries@.len() as int) =~= entries@);
    values
}

/// `current` with a validated patch applied.
fn patched(current: &TextMap<String>, updates: &[RuntimeValueUpdate]) -> (next: TextMap<String>)
    ensures
        next@ == patched_overrides(current@, updates@),
{
    let mut next = current.clone();
    let mut i: usize = 0;
    assert(updates@.take(0) =~= Seq::<RuntimeValueUpdate>::empty());
    while i < updates.len()
        invariant
            i <= updates@.len(),
            next@ == patched_overrides(current@, updates@.take(i as int)),
        decreases updates@.len() - i,
    {
        assert(updates@.take(i + 1).drop_last() =~= updates@.take(i as int));
        match &updates[i].value {
            Some(value) => next.insert(updates[i].key.clone(), value.clone()),
            None => next.remove(updates[i].key.as_str()),
        }
        i = i + 1;
    }
    assert(updates@.take(updates@.len() as int) =~= updates@);
    next
}

/// In a finite set of overrides that is not admissible as a whole, one rejected key is
/// the smallest: the rejection names it.
pub proof fn law_rejection_names_the_first_key(
    mutable: Set<Seq<char>>,
    next: Map<Seq<char>, String>,
    key: Seq<char>,
)
    requires
        next.dom().finite(),
        next.contains_key(key),
        !admissible(mutable, key, Some(next[key])),
        next.len() <= MAX_RUNTIME_KEYS,
    ensures
        exists|first: Seq<char>|
            #[trigger] first_rejected(mutable, next, first) && overrides_fault(mutable, next)
                == Some(Fault::RuntimeUpdateRejected(first)),
{
    let first = lemma_first_rejected_exists(mutable, next, key);
    lemma_first_rejected_unique(
        mutable,
        next,
        first,
        choose|key: Seq<char>| first_rejected(mutable, next, key),
    );
}

proof fn lemma_first_rejected_exists(
    mutable: Set<Seq<char>>,
    next: Map<Seq<char>, String>,
    key: Seq<char>,
) -> (first: Seq<char>)
    requires
        next.dom().finite(),
        next.contains_key(key),
        !admissible(mutable, key, Some(next[key])),
    ensures
        first_rejected(mutable, next, first),
    decreases next.dom().filter(|other: Seq<char>| precedes(other, key)).len(),
{
    if first_rejected(mutable, next, key) {
        key
    } else {
        let smaller = choose|other: Seq<char>| #[trigger]
            next.contains_key(other) && precedes(other, key) && !admissible(
                mutable,
                other,
                Some(next[other]),
            );
        let below_key = next.dom().filter(|other: Seq<char>| precedes(other, key));
        let below_smaller = next.dom().filter(|other: Seq<char>| precedes(other, smaller));
        assert(below_smaller.subset_of(below_key)) by {
            assert forall|other: Seq<char>| below_smaller.contains(
                other,
            ) implies below_key.contains(other) by {
                lemma_precedes_transitive(other, smaller, key);
            }
        }
        lemma_precedes_irreflexive(smaller);
        assert(below_key.contains(smaller) && !below_smaller.contains(smaller));
        vstd::set_lib::lemma_len_subset(below_smaller, below_key.remove(smaller));
        lemma_first_rejected_exists(mutable, next, smaller)
    }
}

/// An accepted patch says exactly what is in force afterwards: a key it sets has the
/// new value, a key it removes has its baseline again, every other key is as before.
pub proof fn law_patch_is_keywise(
    layers: RuntimeLayers,
    updates: Seq<RuntimeValueUpdate>,
    key: Seq<char>,
)
    requires
        patch_fault(layers.mutable, updates) is None,
    ensures
        ({
            let after = layers.overridden_by(patched_overrides(layers.overrides, updates));
            &&& !updates_key(updates, key) ==> {
                &&& after.effective().contains_key(key) <==> layers.effective().contains_key(key)
                &&& after.effective().contains_key(key) ==> after.effective()[key]
                    == layers.effective()[key]
            }
            &&& forall|i: int|
                0 <= i < updates.len() && (#[trigger] updates[i]).key@ == key ==> match updates[i].value {
                    Some(value) => after.effective().contains_key(key) && after.effective()[key]
                        == value,
                    None => {
                        &&& after.effective().contains_key(key) <==> layers.baseline.contains_key(
                            key,
                        )
                        &&& after.effective().contains_key(key) ==> after.effective()[key]
                            == layers.baseline[key]
                    },
                }
        }),
{
    lemma_patched(layers.mutable, layers.overrides, updates);
    let after = patched_overrides(layers.overrides, updates);
    if !updates_key(updates, key) {
        assert(after.contains_key(key) <==> layers.overrides.contains_key(key));
    }
}

/// Setting an override and removing it again restores the baseline value.
pub proof fn law_removal_restores_baseline(
    layers: RuntimeLayers,
    set: RuntimeValueUpdate,
    removal: RuntimeValueUpdate,
)
    requires
        set.value is Some,
        removal.key@ == set.key@,
        removal.value is None,
    ensures
        ({
            let once = patched_overrides(layers.overrides, seq![set]);
            let twice = layers.overridden_by(patched_overrides(once, seq![removal]));
            &&& twice.effective().contains_key(set.key@) <==> layers.baseline.contains_key(
                set.key@,
            )
            &&& layers.baseline.contains_key(set.key@) ==> twice.effective()[set.key@]
                == layers.baseline[set.key@]
        }),
{
    let once = patched_overrides(layers.overrides, seq![set]);
    assert(seq![set].drop_last() =~= Seq::<RuntimeValueUpdate>::empty());
    assert(seq![removal].drop_last() =~= Seq::<RuntimeValueUpdate>::empty());
    reveal_with_fuel(patched_overrides, 2);
    assert(patched_overrides(once, seq![removal]) == once.remove(set.key@));
}

/// A key that looks like a secret is never on an allowlist and never has a value.
pub proof fn law_secrets_never_take_part(layers: RuntimeLayers, key: Seq<char>)
    requires
        layers.well_formed(),
        sensitive(key),
    ensures
        !layers.mutable.contains(key),
        !layers.effective().contains_key(key),
        forall|value: Option<String>| !#[trigger] admissible(layers.mutable, key, value),
{
}

/// Whatever is in force is on the allowlist and no longer than a value may be, and there
/// are never more values than the allowlist may have keys.
pub proof fn law_values_stay_bounded(layers: RuntimeLayers)
    requires
        layers.well_formed(),
    ensures
        layers.effective().dom().subset_of(layers.mutable),
        layers.effective().dom().finite(),
        layers.effective().len() <= MAX_RUNTIME_KEYS,
        forall|key: Seq<char>| #[trigger]
            layers.effective().contains_key(key) ==> byte_length(layers.effective()[key]@)
                <= MAX_RUNTIME_VALUE_BYTES,
{
    assert(layers.effective().dom().subset_of(layers.mutable));
    vstd::set_lib::lemma_len_subset(layers.effective().dom(), layers.mutable);
}

/// A set of overrides is judged by itself, whatever is in force: any admissible set of
/// at most the largest number of keys may replace any other.
pub proof fn law_replacement_ignores_what_it_replaces(
    layers: RuntimeLayers,
    next: Map<Seq<char>, String>,
)
    ensures
        overrides_fault(layers.mutable, next) is None <==> next.len() <= MAX_RUNTIME_KEYS
            && layer_admissible(layers.mutable, next),
        layers.overridden_by(next).overridden_by(layers.overrides) == layers,
{
}

/// A key may take part in runtime updates exactly where it is a short run of capital letters,
/// digits and underscores that does not start with a digit and does not look like a secret.
pub proof fn law_runtime_keys(key: Seq<char>)
    ensures
        runtime_key(key) <==> {
            &&& 1 <= key.len() <= 128
            &&& !('0' <= key[0] <= '9')
            &&& forall|i: int|
                0 <= i < key.len() ==> 'A' <= #[trigger] key[i] <= 'Z' || '0' <= key[i] <= '9'
                    || key[i] == '_'
            &&& !sensitive(key)
        },
{
}

/// A value may be given to a key exactly where the key may take part, is on the allowlist,
/// and the value is not too long; removing asks no more than that of the key.
pub proof fn law_what_is_admissible(mutable: Set<Seq<char>>, key: Seq<char>, value: String)
    ensures
        admissible(mutable, key, None) <==> runtime_key(key) && mutable.contains(key),
        admissible(mutable, key, Some(value)) <==> runtime_key(key) && mutable.contains(key)
            && vstd::utf8::encode_utf8(value@).len() <= 16_384,
{
}

proof fn lemma_word_stands(a: Seq<char>, word: Seq<char>, b: Seq<char>)
    requires
        !word.contains('_'),
        a.len() > 0 ==> a.last() == '_',
        b.len() > 0 ==> b[0] == '_',
    ensures
        exists|i: int|
            0 <= i < split(a + word + b, '_').len() && #[trigger] split(a + word + b, '_')[i]
                == word,
    decreases a.len(),
{
    let s = a + word + b;
    if a.len() == 0 {
        if b.len() == 0 {
            assert(s =~= word);
            law_split(word, '_', Seq::empty());
            assert(split(s, '_')[0] == word);
        } else {
            assert(s =~= word + seq!['_'] + b.skip(1));
            law_split(word, '_', b.skip(1));
            assert(split(s, '_')[0] == word);
        }
    } else {
        assert(a[a.len() - 1] == '_');
        assert(a.contains('_'));
        law_before_and_after(a, '_');
        let first = before(a, '_');
        let rest = after(a, '_');
        assert(a == first + seq!['_'] + rest);
        if rest.len() > 0 {
            assert(rest.last() == a.last());
        }
        assert(s =~= first + seq!['_'] + (rest + word + b));
        law_split(first, '_', rest + word + b);
        lemma_word_stands(rest, word, b);
        let pieces = split(rest + word + b, '_');
        let i = choose|i: int| 0 <= i < pieces.len() && #[trigger] pieces[i] == word;
        assert(split(s, '_')[i + 1] == word);
    }
}

proof fn lemma_piece_stands(s: Seq<char>, i: int) -> (parts: (Seq<char>, Seq<char>))
    requires
        0 <= i < split(s, '_').len(),
    ensures
        s == parts.0 + split(s, '_')[i] + parts.1,
        parts.0.len() > 0 ==> parts.0.last() == '_',
        parts.1.len() > 0 ==> parts.1[0] == '_',
    decreases s.len(),
{
    law_before_and_after(s, '_');
    if s.contains('_') {
        let first = before(s, '_');
        let rest = after(s, '_');
        assert(s == first + seq!['_'] + rest);
        law_split(first, '_', rest);
        if i == 0 {
            let behind = seq!['_'] + rest;
            assert(s =~= Seq::<char>::empty() + first + behind);
            (Seq::<char>::empty(), behind)
        } else {
            let inner = lemma_piece_stands(rest, i - 1);
            let piece = split(rest, '_')[i - 1];
            assert(split(s, '_')[i] == piece);
            let front = first + seq!['_'] + inner.0;
            assert(s =~= front + piece + inner.1);
            (front, inner.1)
        }
    } else {
        law_split(s, '_', Seq::empty());
        assert(s =~= Seq::<char>::empty() + s + Seq::<char>::empty());
        (Seq::<char>::empty(), Seq::<char>::empty())
    }
}

proof fn lemma_secret_words_are_words()
    ensures
        !"PASSWORD"@.contains('_'),
        !"PASS"@.contains('_'),
        !"TOKEN"@.contains('_'),
        !"SECRET"@.contains('_'),
        !"CREDENTIAL"@.contains('_'),
        !"CREDENTIALS"@.contains('_'),
        !"COOKIE"@.contains('_'),
        !"PRIVATE"@.contains('_'),
        !"AUTHORIZATION"@.contains('_'),
{
    reveal_strlit("PASSWORD");
    reveal_strlit("PASS");
    reveal_strlit("TOKEN");
    reveal_strlit("SECRET");
    reveal_strlit("CREDENTIAL");
    reveal_strlit("CREDENTIALS");
    reveal_strlit("COOKIE");
    reveal_strlit("PRIVATE");
    reveal_strlit("AUTHORIZATION");
}

/// A key looks like a secret wherever one of the secret words stands in it as a word of its
/// own, bounded by underscores or by the ends of the key, and where it ends in `_DSN` or
/// `_KEY`; the two known addresses do too.
pub proof fn law_secrets_are_recognized(a: Seq<char>, word: Seq<char>, b: Seq<char>)
    requires
        a.len() > 0 ==> a.last() == '_',
        b.len() > 0 ==> b[0] == '_',
        ({
            ||| word == "PASSWORD"@
            ||| word == "PASS"@
            ||| word == "TOKEN"@
            ||| word == "SECRET"@
            ||| word == "CREDENTIAL"@
            ||| word == "CREDENTIALS"@
            ||| word == "COOKIE"@
            ||| word == "PRIVATE"@
            ||| word == "AUTHORIZATION"@
        }),
    ensures
        sensitive(a + word + b),
        sensitive(a + "_DSN"@),
        sensitive(a + "_KEY"@),
        sensitive("REDIS_URL"@),
        sensitive("DATABASE_URL"@),
{
    lemma_secret_words_are_words();
    lemma_word_stands(a, word, b);
    law_starts_and_ends(a, "_DSN"@, a);
    law_starts_and_ends(a, "_KEY"@, a);
}

/// Nothing else looks like a secret: every such key is one of the two addresses, ends in
/// `_DSN` or `_KEY`, or has a secret word among its words.
pub proof fn law_only_secrets_are_withheld(key: Seq<char>)
    requires
        sensitive(key),
    ensures
        ({
            ||| key == "REDIS_URL"@
            ||| key == "DATABASE_URL"@
            ||| exists|rest: Seq<char>| key == #[trigger] (rest + "_DSN"@)
            ||| exists|rest: Seq<char>| key == #[trigger] (rest + "_KEY"@)
            ||| exists|a: Seq<char>, word: Seq<char>, b: Seq<char>|
                {
                    &&& key == #[trigger] (a + word + b)
                    &&& a.len() > 0 ==> a.last() == '_'
                    &&& b.len() > 0 ==> b[0] == '_'
                    &&& {
                        ||| word == "PASSWORD"@
                        ||| word == "PASS"@
                        ||| word == "TOKEN"@
                        ||| word == "SECRET"@
                        ||| word == "CREDENTIAL"@
                        ||| word == "CREDENTIALS"@
                        ||| word == "COOKIE"@
                        ||| word == "PRIVATE"@
                        ||| word == "AUTHORIZATION"@
                    }
                }
        }),
{
    law_starts_and_ends(key, "_DSN"@, key);
    law_starts_and_ends(key, "_KEY"@, key);
    if exists|i: int|
        0 <= i < split(key, '_').len() && secret_word(#[trigger] split(key, '_')[i]) {
        let i = choose|i: int|
            0 <= i < split(key, '_').len() && secret_word(#[trigger] split(key, '_')[i]);
        let parts = lemma_piece_stands(key, i);
        assert(key == parts.0 + split(key, '_')[i] + parts.1);
    }
}

/// An allowlist is accepted exactly where it has at most 64 keys, all of them keys that may
/// take part, and no key twice. It is then the set of its keys.
pub proof fn law_what_allowlists_are_accepted(keys: Seq<String>)
    ensures
        allowlist_fault(keys) is None <==> {
            &&& keys.len() <= 64
            &&& forall|i: int| 0 <= i < keys.len() ==> runtime_key(#[trigger] keys[i]@)
            &&& forall|i: int, j: int|
                0 <= i < j < keys.len() ==> #[trigger] keys[i]@ != #[trigger] keys[j]@
        },
        forall|key: Seq<char>| #[trigger]
            listed(keys).contains(key) <==> exists|i: int|
                0 <= i < keys.len() && #[trigger] keys[i]@ == key,
    decreases keys.len(),
{
    lemma_listed(keys);
    assert forall|key: Seq<char>| #[trigger] listed(keys).contains(key) <==> exists|i: int|
        0 <= i < keys.len() && #[trigger] keys[i]@ == key by {
        assert(listed(keys).contains(key) <==> lists(keys, key));
    }
    if keys.len() > 0 {
        let init = keys.drop_last();
        law_what_allowlists_are_accepted(init);
        if allowlist_fault(keys) is None {
            assert forall|i: int| 0 <= i < keys.len() implies runtime_key(#[trigger] keys[i]@) by {
                if i < init.len() {
                    assert(init[i] == keys[i]);
                }
            }
            assert forall|i: int, j: int| 0 <= i < j < keys.len() implies #[trigger] keys[i]@
                != #[trigger] keys[j]@ by {
                assert(init[i] == keys[i]);
                if j < init.len() {
                    assert(init[j] == keys[j]);
                } else {
                    assert(listed(init).contains(init[i]@));
                }
            }
        }
        if keys.len() <= 64 && (forall|i: int|
            0 <= i < keys.len() ==> runtime_key(#[trigger] keys[i]@)) && (forall|i: int, j: int|
            0 <= i < j < keys.len() ==> #[trigger] keys[i]@ != #[trigger] keys[j]@) {
            assert forall|i: int| 0 <= i < init.len() implies runtime_key(#[trigger] init[i]@) by {
                assert(init[i] == keys[i]);
            }
            assert forall|i: int, j: int| 0 <= i < j < init.len() implies #[trigger] init[i]@
                != #[trigger] init[j]@ by {
                assert(init[i] == keys[i] && init[j] == keys[j]);
            }
            assert(runtime_key(keys[keys.len() - 1]@));
            if listed(init).contains(keys.last()@) {
                let i = choose|i: int| 0 <= i < init.len() && #[trigger] init[i]@ == keys.last()@;
                assert(keys[i]@ == keys[keys.len() - 1]@);
            }
        }
    }
}

/// The first key that does not belong on an allowlist decides how the list is refused, and
/// whatever follows it makes no difference.
pub proof fn law_first_bad_key_refuses_an_allowlist(
    keys: Seq<String>,
    key: String,
    later: Seq<String>,
)
    requires
        allowlist_fault(keys) is None,
    ensures
        !runtime_key(key@) ==> allowlist_fault(keys.push(key) + later) == Some(
            Fault::RuntimeUpdateRejected(key@),
        ),
        runtime_key(key@) && (keys.len() >= 64 || exists|i: int|
            0 <= i < keys.len() && #[trigger] keys[i]@ == key@) ==> allowlist_fault(
            keys.push(key) + later,
        ) == Some(Fault::InvalidConfig("runtime mutable keys must be unique and bounded"@)),
{
    let reached = keys.push(key);
    let whole = reached + later;
    assert(reached.drop_last() =~= keys);
    assert(whole.take(reached.len() as int) =~= reached);
    lemma_listed(keys);
    if exists|i: int| 0 <= i < keys.len() && #[trigger] keys[i]@ == key@ {
        assert(lists(keys, key@));
    }
    if allowlist_fault(reached) is Some {
        lemma_allowlist_prefix(whole, reached.len() as int);
    }
}

/// A baseline is accepted exactly where it has at most 64 values, all admissible, and no key
/// twice. It then holds each of them.
pub proof fn law_what_baselines_are_accepted(
    mutable: Set<Seq<char>>,
    initial: Seq<(String, String)>,
)
    ensures
        baseline_fault(mutable, initial) is None <==> {
            &&& initial.len() <= 64
            &&& forall|i: int|
                0 <= i < initial.len() ==> admissible(
                    mutable,
                    #[trigger] initial[i].0@,
                    Some(initial[i].1),
                )
            &&& forall|i: int, j: int|
                0 <= i < j < initial.len() ==> #[trigger] initial[i].0@
                    != #[trigger] initial[j].0@
        },
    decreases initial.len(),
{
    if initial.len() > 0 {
        let init = initial.drop_last();
        law_what_baselines_are_accepted(mutable, init);
        lemma_keys_of_entries(init);
        if baseline_fault(mutable, initial) is None {
            assert forall|i: int| 0 <= i < initial.len() implies admissible(
                mutable,
                #[trigger] initial[i].0@,
                Some(initial[i].1),
            ) by {
                if i < init.len() {
                    assert(init[i] == initial[i]);
                }
            }
            assert forall|i: int, j: int| 0 <= i < j < initial.len() implies #[trigger] initial[i].0@
                != #[trigger] initial[j].0@ by {
                assert(init[i] == initial[i]);
                if j < init.len() {
                    assert(init[j] == initial[j]);
                } else {
                    assert(entries_map(init).contains_key(init[i].0@));
                }
            }
        }
        if initial.len() <= 64 && (forall|i: int|
            0 <= i < initial.len() ==> admissible(
                mutable,
                #[trigger] initial[i].0@,
                Some(initial[i].1),
            )) && (forall|i: int, j: int|
            0 <= i < j < initial.len() ==> #[trigger] initial[i].0@ != #[trigger] initial[j].0@) {
            assert forall|i: int| 0 <= i < init.len() implies admissible(
                mutable,
                #[trigger] init[i].0@,
                Some(init[i].1),
            ) by {
                assert(init[i] == initial[i]);
            }
            assert forall|i: int, j: int| 0 <= i < j < init.len() implies #[trigger] init[i].0@
                != #[trigger] init[j].0@ by {
                assert(init[i] == initial[i] && init[j] == initial[j]);
            }
            assert(admissible(
                mutable,
                initial[initial.len() - 1].0@,
                Some(initial[initial.len() - 1].1),
            ));
            if entries_map(init).contains_key(initial.last().0@) {
                let i = choose|i: int|
                    0 <= i < init.len() && #[trigger] init[i].0@ == initial.last().0@;
                assert(initial[i].0@ == initial[initial.len() - 1].0@);
            }
        }
    }
}

proof fn lemma_keys_of_entries(entries: Seq<(String, String)>)
    ensures
        forall|key: Seq<char>| #[trigger]
            entries_map(entries).contains_key(key) <==> exists|i: int|
                0 <= i < entries.len() && #[trigger] entries[i].0@ == key,
    decreases entries.len(),
{
    if entries.len() > 0 {
        let init = entries.drop_last();
        lemma_keys_of_entries(init);
        assert forall|key: Seq<char>| #[trigger]
            entries_map(entries).contains_key(key) <==> exists|i: int|
            0 <= i < entries.len() && #[trigger] entries[i].0@ == key by {
            if entries_map(init).contains_key(key) {
                let i = choose|i: int| 0 <= i < init.len() && #[trigger] init[i].0@ == key;
                assert(entries[i].0@ == key);
            }
            if exists|i: int| 0 <= i < entries.len() && #[trigger] entries[i].0@ == key {
                let i = choose|i: int| 0 <= i < entries.len() && #[trigger] entries[i].0@ == key;
                if i < init.len() {
                    assert(init[i].0@ == key);
                }
            }
            if key == entries.last().0@ {
                assert(entries[entries.len() - 1].0@ == key);
            }
        }
    }
}

/// The first entry that does not belong in a baseline decides how it is refused.
pub proof fn law_first_bad_value_refuses_a_baseline(
    mutable: Set<Seq<char>>,
    initial: Seq<(String, String)>,
    entry: (String, String),
    later: Seq<(String, String)>,
)
    requires
        baseline_fault(mutable, initial) is None,
    ensures
        !admissible(mutable, entry.0@, Some(entry.1)) ==> baseline_fault(
            mutable,
            initial.push(entry) + later,
        ) == Some(Fault::RuntimeUpdateRejected(entry.0@)),
        admissible(mutable, entry.0@, Some(entry.1)) && (initial.len() >= 64 || exists|i: int|
            0 <= i < initial.len() && #[trigger] initial[i].0@ == entry.0@) ==> baseline_fault(
            mutable,
            initial.push(entry) + later,
        ) == Some(Fault::InvalidConfig("runtime baseline values must be unique and bounded"@)),
{
    let reached = initial.push(entry);
    let whole = reached + later;
    assert(reached.drop_last() =~= initial);
    assert(whole.take(reached.len() as int) =~= reached);
    lemma_keys_of_entries(initial);
    if baseline_fault(mutable, reached) is Some {
        lemma_baseline_prefix(mutable, whole, reached.len() as int);
    }
}

/// The values of a configuration are refused by their allowlist first, and then by their
/// baseline against that allowlist.
pub proof fn law_values_are_refused_by_either_part(
    keys: Seq<String>,
    initial: Seq<(String, String)>,
)
    ensures
        values_fault(keys, initial) is None <==> allowlist_fault(keys) is None && baseline_fault(
            listed(keys),
            initial,
        ) is None,
        allowlist_fault(keys) is Some ==> values_fault(keys, initial) == allowlist_fault(keys),
        allowlist_fault(keys) is None ==> values_fault(keys, initial) == baseline_fault(
            listed(keys),
            initial,
        ),
{
}

/// A patch is accepted exactly where it has at most 64 updates, all admissible, and no key
/// twice.
pub proof fn law_what_patches_are_accepted(
    mutable: Set<Seq<char>>,
    updates: Seq<RuntimeValueUpdate>,
)
    ensures
        patch_fault(mutable, updates) is None <==> {
            &&& updates.len() <= 64
            &&& forall|i: int|
                0 <= i < updates.len() ==> admissible(
                    mutable,
                    (#[trigger] updates[i]).key@,
                    updates[i].value,
                )
            &&& forall|i: int, j: int|
                0 <= i < j < updates.len() ==> (#[trigger] updates[i]).key@ != (
                #[trigger] updates[j]).key@
        },
        updates.len() > 64 ==> patch_fault(mutable, updates) == Some(
            Fault::InvalidConfig("runtime patch exceeds the bounded key count"@),
        ),
{
    lemma_what_updates_are_accepted(mutable, updates);
}

proof fn lemma_what_updates_are_accepted(
    mutable: Set<Seq<char>>,
    updates: Seq<RuntimeValueUpdate>,
)
    ensures
        updates_fault(mutable, updates) is None <==> {
            &&& forall|i: int|
                0 <= i < updates.len() ==> admissible(
                    mutable,
                    (#[trigger] updates[i]).key@,
                    updates[i].value,
                )
            &&& forall|i: int, j: int|
                0 <= i < j < updates.len() ==> (#[trigger] updates[i]).key@ != (
                #[trigger] updates[j]).key@
        },
    decreases updates.len(),
{
    if updates.len() > 0 {
        let init = updates.drop_last();
        lemma_what_updates_are_accepted(mutable, init);
        if updates_fault(mutable, updates) is None {
            assert forall|i: int| 0 <= i < updates.len() implies admissible(
                mutable,
                (#[trigger] updates[i]).key@,
                updates[i].value,
            ) by {
                if i < init.len() {
                    assert(init[i] == updates[i]);
                }
            }
            assert forall|i: int, j: int| 0 <= i < j < updates.len() implies (
            #[trigger] updates[i]).key@ != (#[trigger] updates[j]).key@ by {
                assert(init[i] == updates[i]);
                if j < init.len() {
                    assert(init[j] == updates[j]);
                } else {
                    assert(init[i].key@ != updates.last().key@);
                }
            }
        }
        if (forall|i: int|
            0 <= i < updates.len() ==> admissible(
                mutable,
                (#[trigger] updates[i]).key@,
                updates[i].value,
            )) && (forall|i: int, j: int|
            0 <= i < j < updates.len() ==> (#[trigger] updates[i]).key@ != (
            #[trigger] updates[j]).key@) {
            assert forall|i: int| 0 <= i < init.len() implies admissible(
                mutable,
                (#[trigger] init[i]).key@,
                init[i].value,
            ) by {
                assert(init[i] == updates[i]);
            }
            assert forall|i: int, j: int| 0 <= i < j < init.len() implies (#[trigger] init[i]).key@
                != (#[trigger] init[j]).key@ by {
                assert(init[i] == updates[i] && init[j] == updates[j]);
            }
            let last = updates[updates.len() - 1];
            assert(admissible(mutable, last.key@, last.value));
            if updates_key(init, last.key@) {
                let i = choose|i: int| 0 <= i < init.len() && #[trigger] init[i].key@ == last.key@;
                assert(updates[i].key@ == updates[updates.len() - 1].key@);
            }
        }
    }
}

/// The first update that may not be applied is the one that a patch is refused for.
pub proof fn law_first_bad_update_refuses_a_patch(
    mutable: Set<Seq<char>>,
    updates: Seq<RuntimeValueUpdate>,
    update: RuntimeValueUpdate,
    later: Seq<RuntimeValueUpdate>,
)
    requires
        updates.len() + 1 + later.len() <= 64,
        patch_fault(mutable, updates) is None,
        !admissible(mutable, update.key@, update.value) || exists|i: int|
            0 <= i < updates.len() && (#[trigger] updates[i]).key@ == update.key@,
    ensures
        patch_fault(mutable, updates.push(update) + later) == Some(
            Fault::RuntimeUpdateRejected(update.key@),
        ),
{
    let reached = updates.push(update);
    let whole = reached + later;
    assert(reached.drop_last() =~= updates);
    assert(whole.take(reached.len() as int) =~= reached);
    if exists|i: int| 0 <= i < updates.len() && (#[trigger] updates[i]).key@ == update.key@ {
        let i = choose|i: int|
            0 <= i < updates.len() && (#[trigger] updates[i]).key@ == update.key@;
        assert(updates[i].key@ == update.key@);
        assert(updates_key(updates, update.key@));
    }
    lemma_updates_prefix(mutable, whole, reached.len() as int);
}

/// A whole set of overrides is accepted exactly where it has at most 64 keys and each of its
/// entries is admissible.
pub proof fn law_what_overrides_are_accepted(
    mutable: Set<Seq<char>>,
    next: Map<Seq<char>, String>,
)
    ensures
        overrides_fault(mutable, next) is None <==> next.len() <= 64 && forall|key: Seq<char>|
            #[trigger] next.contains_key(key) ==> admissible(mutable, key, Some(next[key])),
        next.len() > 64 ==> overrides_fault(mutable, next) == Some(
            Fault::InvalidConfig("runtime override set exceeds the bounded key count"@),
        ),
{
}

/// The smallest key that is not admissible is the one that a set of overrides is refused for.
pub proof fn law_smallest_bad_key_refuses_overrides(
    mutable: Set<Seq<char>>,
    next: Map<Seq<char>, String>,
    key: Seq<char>,
)
    requires
        next.len() <= 64,
        next.contains_key(key),
        !admissible(mutable, key, Some(next[key])),
        forall|other: Seq<char>| #[trigger]
            next.contains_key(other) && other != key && !admissible(
                mutable,
                other,
                Some(next[other]),
            ) ==> precedes(key, other),
    ensures
        overrides_fault(mutable, next) == Some(Fault::RuntimeUpdateRejected(key)),
{
    assert forall|other: Seq<char>| #[trigger]
        next.contains_key(other) && precedes(other, key) implies admissible(
        mutable,
        other,
        Some(next[other]),
    ) by {
        lemma_precedes_irreflexive(key);
        if other != key && !admissible(mutable, other, Some(next[other])) {
            lemma_precedes_asymmetric(key, other);
        }
    }
    assert(first_rejected(mutable, next, key));
    lemma_first_rejected_unique(
        mutable,
        next,
        key,
        choose|key: Seq<char>| first_rejected(mutable, next, key),
    );
}

/// The value in force for a key is its override where it has one, else its baseline, else
/// none.
pub proof fn law_overrides_win(layers: RuntimeLayers, key: Seq<char>)
    ensures
        layers.overrides.contains_key(key) ==> layers.effective().contains_key(key)
            && layers.effective()[key] == layers.overrides[key],
        !layers.overrides.contains_key(key) && layers.baseline.contains_key(key)
            ==> layers.effective().contains_key(key) && layers.effective()[key]
            == layers.baseline[key],
        !layers.overrides.contains_key(key) && !layers.baseline.contains_key(key)
            ==> !layers.effective().contains_key(key),
{
}

/// A patch touches the overrides that it names and no other, and neither the baseline nor the
/// allowlist.
pub proof fn law_patches_touch_what_they_name(
    layers: RuntimeLayers,
    updates: Seq<RuntimeValueUpdate>,
    key: Seq<char>,
)
    requires
        patch_fault(layers.mutable, updates) is None,
    ensures
        ({
            let after = layers.overridden_by(patched_overrides(layers.overrides, updates));
            &&& after.mutable == layers.mutable
            &&& after.baseline == layers.baseline
            &&& (forall|i: int| 0 <= i < updates.len() ==> (#[trigger] updates[i]).key@ != key)
                ==> {
                &&& after.overrides.contains_key(key) <==> layers.overrides.contains_key(key)
                &&& layers.overrides.contains_key(key) ==> after.overrides[key]
                    == layers.overrides[key]
            }
            &&& forall|i: int|
                0 <= i < updates.len() && (#[trigger] updates[i]).key@ == key ==> {
                    &&& after.overrides.contains_key(key) <==> updates[i].value is Some
                    &&& updates[i].value is Some ==> after.overrides[key] == updates[i].value->0
                }
        }),
{
    lemma_patched(layers.mutable, layers.overrides, updates);
    let after = patched_overrides(layers.overrides, updates);
    if forall|i: int| 0 <= i < updates.len() ==> (#[trigger] updates[i]).key@ != key {
        assert(!updates_key(updates, key));
        assert(after.contains_key(key) <==> layers.overrides.contains_key(key));
    }
}

/// Values are well formed exactly where their allowlist holds no more than sixty-four keys, all
/// of them runtime keys, and both layers set nothing that may not be set.
pub proof fn law_which_layers_are_well_formed(layers: RuntimeLayers)
    ensures
        layers.well_formed() <==> {
            &&& layers.mutable.finite() && layers.mutable.len() <= 64
            &&& forall|key: Seq<char>| #[trigger] layers.mutable.contains(key) ==> runtime_key(key)
            &&& forall|key: Seq<char>| #[trigger]
                layers.baseline.contains_key(key) ==> admissible(
                    layers.mutable,
                    key,
                    Some(layers.baseline[key]),
                )
            &&& forall|key: Seq<char>| #[trigger]
                layers.overrides.contains_key(key) ==> admissible(
                    layers.mutable,
                    key,
                    Some(layers.overrides[key]),
                )
        },
{
}

} // verus!
