//! The sidecar file: which sidecars there are, and how their runtime values are set.
//!
//! Reading the file and parsing its TOML belong to the process around this module,
//! which hands in the bytes and the parsed document.

use crate::error::{reports, Fault, SidecarError};
use crate::runtime_updates::{keyspace_segment, valid_keyspace_segment};
use crate::runtime_values::{
    lemma_listed, listed, lists, values_fault, RuntimeLayers, RuntimeValues,
};
use crate::text::{byte_len, byte_length, is_plain_name, law_byte_length, plain_name, same_text};
use crate::text_map::{entries_map, law_last_entry_wins, TextSet};
use vstd::prelude::*;
use vstd::utf8::{encode_utf8, valid_utf8};

verus! {

pub const DEFAULT_CONFIG_PATH: &'static str = ".ores-sidecar.toml";

pub const CONFIG_PROTOCOL: &'static str = "ores.sidecar/config/v1";

pub const DEFAULT_STARTUP_CONFIG: &'static str = ".cli-flags.toml";

pub const MAX_CONFIG_FILE_BYTES: usize = 256 * 1024;

pub const MAX_SIDECARS: usize = 64;

pub const MAX_SIDECAR_ID_BYTES: usize = 128;

pub const MIN_RECONCILE_SECONDS: u32 = 60;

pub const MAX_RECONCILE_SECONDS: u32 = 180;

#[derive(Clone, Copy, Debug, PartialEq, Eq, Structural)]
pub enum RuntimeUpdateProvider {
    Disabled,
    OresRedisLruCache,
}

#[derive(Clone, Copy, Debug, PartialEq, Eq, Structural)]
pub enum RuntimeUpdateMode {
    Disabled,
    ReceiveOnly,
}

#[derive(Debug, PartialEq, Eq)]
pub struct RuntimeUpdatePolicy {
    pub provider: RuntimeUpdateProvider,
    pub mode: RuntimeUpdateMode,
    pub poll_seconds: u32,
    pub namespace: String,
    pub cache: String,
}

impl Clone for RuntimeUpdatePolicy {
    fn clone(&self) -> (copy: Self)
        ensures
            copy == *self,
    {
        RuntimeUpdatePolicy {
            provider: self.provider,
            mode: self.mode,
            poll_seconds: self.poll_seconds,
            namespace: self.namespace.clone(),
            cache: self.cache.clone(),
        }
    }
}

impl RuntimeUpdatePolicy {
    /// Backend updates are received.
    pub open spec fn enabled(self) -> bool {
        self.provider == RuntimeUpdateProvider::OresRedisLruCache && self.mode
            == RuntimeUpdateMode::ReceiveOnly
    }

    /// Provider and mode are both off or both on.
    pub open spec fn compatible(self) -> bool {
        self.enabled() || (self.provider == RuntimeUpdateProvider::Disabled && self.mode
            == RuntimeUpdateMode::Disabled)
    }

    /// What is wrong with the policy.
    pub open spec fn fault(self) -> Option<Fault> {
        if !(MIN_RECONCILE_SECONDS <= self.poll_seconds <= MAX_RECONCILE_SECONDS)
            || !keyspace_segment(self.namespace@) || !keyspace_segment(self.cache@) {
            Some(
                Fault::InvalidConfig(
                    "runtime update policy is outside Redis-LRU-compatible bounds"@,
                ),
            )
        } else if !self.compatible() {
            Some(Fault::InvalidConfig("runtime update provider and mode are incompatible"@))
        } else {
            None
        }
    }

    pub fn accepts_keyspace(&self, namespace: &str, cache: &str) -> (accepted: bool)
        ensures
            accepted == (self.namespace@ == namespace@ && self.cache@ == cache@),
    {
        same_text(self.namespace.as_str(), namespace) && same_text(self.cache.as_str(), cache)
    }

    pub fn is_enabled(&self) -> (enabled: bool)
        ensures
            enabled == self.enabled(),
    {
        self.provider == RuntimeUpdateProvider::OresRedisLruCache && self.mode
            == RuntimeUpdateMode::ReceiveOnly
    }
}

fn validate_runtime_policy(policy: &RuntimeUpdatePolicy) -> (outcome: Result<(), SidecarError>)
    ensures
        reports(outcome, policy.fault()),
{
    if policy.poll_seconds < MIN_RECONCILE_SECONDS || policy.poll_seconds > MAX_RECONCILE_SECONDS
        || !valid_keyspace_segment(policy.namespace.as_str()) || !valid_keyspace_segment(
        policy.cache.as_str(),
    ) {
        return Err(
            SidecarError::InvalidConfig {
                reason: "runtime update policy is outside Redis-LRU-compatible bounds",
            },
        );
    }
    let compatible = match (policy.provider, policy.mode) {
        (RuntimeUpdateProvider::Disabled, RuntimeUpdateMode::Disabled) => true,
        (RuntimeUpdateProvider::OresRedisLruCache, RuntimeUpdateMode::ReceiveOnly) => true,
        _ => false,
    };
    if !compatible {
        return Err(
            SidecarError::InvalidConfig {
                reason: "runtime update provider and mode are incompatible",
            },
        );
    }
    Ok(())
}

#[derive(Debug, PartialEq, Eq)]
pub struct RuntimeValueDefinition {
    pub key: String,
    pub value: String,
}

impl Clone for RuntimeValueDefinition {
    fn clone(&self) -> (copy: Self)
        ensures
            copy == *self,
    {
        RuntimeValueDefinition { key: self.key.clone(), value: self.value.clone() }
    }
}

#[derive(Debug, PartialEq, Eq)]
pub struct SidecarDefinition {
    pub id: String,
    pub path: Option<String>,
    pub startup_config: Option<String>,
    pub runtime_updates: RuntimeUpdatePolicy,
    pub runtime_mutable: Vec<String>,
    pub values: Vec<RuntimeValueDefinition>,
}

/// The keys and values that some definitions set.
pub open spec fn defined_values(values: Seq<RuntimeValueDefinition>) -> Seq<(String, String)> {
    values.map_values(|definition: RuntimeValueDefinition| (definition.key, definition.value))
}

/// Both definitions say the same.
pub open spec fn same_definition(a: SidecarDefinition, b: SidecarDefinition) -> bool {
    &&& a.id == b.id
    &&& a.path == b.path
    &&& a.startup_config == b.startup_config
    &&& a.runtime_updates == b.runtime_updates
    &&& a.runtime_mutable@ == b.runtime_mutable@
    &&& a.values@ == b.values@
}

fn cloned_text(text: &Option<String>) -> (copy: Option<String>)
    ensures
        copy == *text,
{
    match text {
        Some(text) => Some(text.clone()),
        None => None,
    }
}

fn cloned_keys(keys: &Vec<String>) -> (copy: Vec<String>)
    ensures
        copy@ == keys@,
{
    let mut copy: Vec<String> = Vec::new();
    let mut i: usize = 0;
    while i < keys.len()
        invariant
            i <= keys@.len(),
            copy@ == keys@.take(i as int),
        decreases keys@.len() - i,
    {
        copy.push(keys[i].clone());
        assert(copy@ =~= keys@.take(i + 1));
        i = i + 1;
    }
    assert(keys@.take(keys@.len() as int) =~= keys@);
    copy
}

fn cloned_values(values: &Vec<RuntimeValueDefinition>) -> (copy: Vec<RuntimeValueDefinition>)
    ensures
        copy@ == values@,
{
    let mut copy: Vec<RuntimeValueDefinition> = Vec::new();
    let mut i: usize = 0;
    while i < values.len()
        invariant
            i <= values@.len(),
            copy@ == values@.take(i as int),
        decreases values@.len() - i,
    {
        copy.push(values[i].clone());
        assert(copy@ =~= values@.take(i + 1));
        i = i + 1;
    }
    assert(values@.take(values@.len() as int) =~= values@);
    copy
}

impl Clone for SidecarDefinition {
    fn clone(&self) -> (copy: Self)
        ensures
            same_definition(copy, *self),
    {
        SidecarDefinition {
            id: self.id.clone(),
            path: cloned_text(&self.path),
            startup_config: cloned_text(&self.startup_config),
            runtime_updates: self.runtime_updates.clone(),
            runtime_mutable: cloned_keys(&self.runtime_mutable),
            values: cloned_values(&self.values),
        }
    }
}

impl SidecarDefinition {
    pub fn startup_config(&self) -> (path: &str)
        ensures
            path@ == (match self.startup_config {
                Some(path) => path@,
                None => DEFAULT_STARTUP_CONFIG@,
            }),
    {
        match &self.startup_config {
            Some(path) => path.as_str(),
            None => DEFAULT_STARTUP_CONFIG,
        }
    }

    /// What is wrong with the runtime values of this sidecar.
    pub open spec fn runtime_values_fault(self) -> Option<Fault> {
        values_fault(self.runtime_mutable@, defined_values(self.values@))
    }

    /// What is wrong with this sidecar apart from its identity.
    pub open spec fn shape_fault(self) -> Option<Fault> {
        if (self.path matches Some(path) && path@.len() == 0) || (
        self.startup_config matches Some(path) && path@.len() == 0) {
            Some(Fault::InvalidConfig("sidecar path fields cannot be empty"@))
        } else if let Some(fault) = self.runtime_updates.fault() {
            Some(fault)
        } else {
            self.runtime_values_fault()
        }
    }

    /// The runtime values that this sidecar defines.
    fn runtime_values(&self) -> (outcome: Result<RuntimeValues, SidecarError>)
        ensures
            reports(outcome, self.runtime_values_fault()),
            outcome matches Ok(values) ==> values@ == self.defined_layers(),
    {
        let mut initial: Vec<(String, String)> = Vec::new();
        let mut i: usize = 0;
        assert(defined_values(self.values@.take(0)) =~= Seq::<(String, String)>::empty());
        while i < self.values.len()
            invariant
                i <= self.values@.len(),
                initial@ == defined_values(self.values@.take(i as int)),
            decreases self.values@.len() - i,
        {
            initial.push((self.values[i].key.clone(), self.values[i].value.clone()));
            assert(initial@ =~= defined_values(self.values@.take(i + 1)));
            i = i + 1;
        }
        assert(self.values@.take(self.values@.len() as int) =~= self.values@);
        RuntimeValues::new(cloned_keys(&self.runtime_mutable), initial)
    }

    /// The layers of the runtime values that this sidecar defines.
    pub open spec fn defined_layers(self) -> RuntimeLayers {
        RuntimeLayers {
            mutable: listed(self.runtime_mutable@),
            baseline: entries_map(defined_values(self.values@)),
            overrides: Map::empty(),
        }
    }
}

/// The per-sidecar checks that do not depend on the other entries.
fn validate_sidecar_shape(sidecar: &SidecarDefinition) -> (outcome: Result<(), SidecarError>)
    ensures
        reports(outcome, sidecar.shape_fault()),
{
    let empty_path = match &sidecar.path {
        Some(path) => path.as_str().is_empty(),
        None => false,
    };
    let empty_startup = match &sidecar.startup_config {
        Some(path) => path.as_str().is_empty(),
        None => false,
    };
    if empty_path || empty_startup {
        return Err(SidecarError::InvalidConfig { reason: "sidecar path fields cannot be empty" });
    }
    if let Err(error) = validate_runtime_policy(&sidecar.runtime_updates) {
        return Err(error);
    }
    match sidecar.runtime_values() {
        Ok(_) => Ok(()),
        Err(error) => Err(error),
    }
}

fn validate_identity(id: &str) -> (outcome: Result<(), SidecarError>)
    ensures
        reports(outcome, identity_fault(id@)),
{
    if is_plain_name(id, MAX_SIDECAR_ID_BYTES) {
        Ok(())
    } else {
        Err(SidecarError::InvalidConfig { reason: "sidecar identity has an invalid shape" })
    }
}

/// What is wrong with the identity of a sidecar.
pub open spec fn identity_fault(id: Seq<char>) -> Option<Fault> {
    if plain_name(id, MAX_SIDECAR_ID_BYTES as nat) {
        None
    } else {
        Some(Fault::InvalidConfig("sidecar identity has an invalid shape"@))
    }
}

/// One of `sidecars` has the identity `id`.
pub open spec fn identifies(sidecars: Seq<SidecarDefinition>, id: Seq<char>) -> bool {
    exists|i: int| 0 <= i < sidecars.len() && #[trigger] sidecars[i].id@ == id
}

/// The first thing that is wrong with a list of sidecars.
pub open spec fn sidecars_fault(sidecars: Seq<SidecarDefinition>) -> Option<Fault>
    decreases sidecars.len(),
{
    if sidecars.len() == 0 {
        None
    } else if let Some(fault) = sidecars_fault(sidecars.drop_last()) {
        Some(fault)
    } else if let Some(fault) = identity_fault(sidecars.last().id@) {
        Some(fault)
    } else if identifies(sidecars.drop_last(), sidecars.last().id@) {
        Some(Fault::InvalidConfig("sidecar identities must be unique"@))
    } else {
        sidecars.last().shape_fault()
    }
}

#[derive(Clone, Debug, PartialEq, Eq)]
pub struct OresSidecarFile {
    pub schema: String,
    pub sidecars: Vec<SidecarDefinition>,
}

#[derive(Debug)]
pub struct ResolvedSidecarFile {
    pub definition: SidecarDefinition,
    pub runtime_values: RuntimeValues,
}

/// The bytes of a sidecar file are too many, or not UTF-8.
pub open spec fn encoding_fault(bytes: Seq<u8>) -> Option<Fault> {
    if bytes.len() > MAX_CONFIG_FILE_BYTES {
        Some(Fault::InvalidConfig("sidecar config exceeds the size limit"@))
    } else if !valid_utf8(bytes) {
        Some(Fault::InvalidConfig("sidecar config must be UTF-8"@))
    } else {
        None
    }
}

/// Calls `std::str::from_utf8`: the text whose UTF-8 encoding the bytes are, where there
/// is one.
#[verifier::external_body]
fn utf8_text(bytes: &[u8]) -> (text: Option<&str>)
    ensures
        match text {
            Some(text) => encode_utf8(text@) == bytes@,
            None => !valid_utf8(bytes@),
        },
{
    std::str::from_utf8(bytes).ok()
}

/// The text of a sidecar file.
pub fn decode(bytes: &[u8]) -> (outcome: Result<String, SidecarError>)
    ensures
        reports(outcome, encoding_fault(bytes@)),
        outcome matches Ok(text) ==> encode_utf8(text@) == bytes@,
{
    if bytes.len() > MAX_CONFIG_FILE_BYTES {
        return Err(SidecarError::InvalidConfig { reason: "sidecar config exceeds the size limit" });
    }
    match utf8_text(bytes) {
        Some(text) => {
            proof {
                vstd::utf8::encode_utf8_valid_utf8(text@);
            }
            Ok(text.to_owned())
        },
        None => Err(SidecarError::InvalidConfig { reason: "sidecar config must be UTF-8" }),
    }
}

/// The first sidecar with the identity `service`.
pub open spec fn first_with_id(
    sidecars: Seq<SidecarDefinition>,
    service: Seq<char>,
    i: int,
) -> bool {
    &&& 0 <= i < sidecars.len()
    &&& sidecars[i].id@ == service
    &&& forall|j: int| 0 <= j < i ==> #[trigger] sidecars[j].id@ != service
}

impl OresSidecarFile {
    /// What is wrong with a parsed file.
    pub open spec fn fault(self) -> Option<Fault> {
        if self.schema@ != CONFIG_PROTOCOL@ {
            Some(Fault::InvalidConfig("unsupported sidecar config schema"@))
        } else if self.sidecars@.len() == 0 || self.sidecars@.len() > MAX_SIDECARS {
            Some(Fault::InvalidConfig("sidecar list must be non-empty and bounded"@))
        } else {
            sidecars_fault(self.sidecars@)
        }
    }

    /// What is wrong with a file, given its text and what its TOML says.
    pub open spec fn parse_fault(input: Seq<char>, parsed: Option<OresSidecarFile>) -> Option<
        Fault,
    > {
        if byte_length(input) > MAX_CONFIG_FILE_BYTES {
            Some(Fault::InvalidConfig("sidecar config exceeds the size limit"@))
        } else {
            match parsed {
                None => Some(Fault::InvalidConfig("sidecar config is not valid TOML"@)),
                Some(file) => file.fault(),
            }
        }
    }

    /// Admit a file. `parsed` is what the TOML of `input` says, where it is valid.
    pub fn parse(input: &str, parsed: Option<Self>) -> (outcome: Result<Self, SidecarError>)
        ensures
            reports(outcome, Self::parse_fault(input@, parsed)),
            outcome matches Ok(file) ==> parsed == Some(file),
    {
        if byte_len(input) > MAX_CONFIG_FILE_BYTES {
            return Err(
                SidecarError::InvalidConfig { reason: "sidecar config exceeds the size limit" },
            );
        }
        match parsed {
            Some(file) => match file.validate() {
                Ok(()) => Ok(file),
                Err(error) => Err(error),
            },
            None => Err(SidecarError::InvalidConfig { reason: "sidecar config is not valid TOML" }),
        }
    }

    pub fn validate(&self) -> (outcome: Result<(), SidecarError>)
        ensures
            reports(outcome, self.fault()),
    {
        if !same_text(self.schema.as_str(), CONFIG_PROTOCOL) {
            return Err(SidecarError::InvalidConfig { reason: "unsupported sidecar config schema" });
        }
        if self.sidecars.len() == 0 || self.sidecars.len() > MAX_SIDECARS {
            return Err(
                SidecarError::InvalidConfig {
                    reason: "sidecar list must be non-empty and bounded",
                },
            );
        }
        let mut ids = TextSet::new();
        let mut i: usize = 0;
        let ghost sidecars = self.sidecars@;
        assert(sidecars.take(0) =~= Seq::<SidecarDefinition>::empty());
        while i < self.sidecars.len()
            invariant
                sidecars == self.sidecars@,
                i <= sidecars.len(),
                sidecars_fault(sidecars.take(i as int)) is None,
                forall|id: Seq<char>| #[trigger]
                    ids@.contains(id) <==> identifies(sidecars.take(i as int), id),
                self.schema@ == CONFIG_PROTOCOL@,
                0 < sidecars.len() <= MAX_SIDECARS,
            decreases sidecars.len() - i,
        {
            let sidecar = &self.sidecars[i];
            let ghost passed = sidecars.take(i as int);
            let ghost reached = sidecars.take(i + 1);
            proof {
                assert(reached.drop_last() =~= passed);
                assert(reached.last() == sidecar);
                if sidecars_fault(reached) is Some {
                    lemma_sidecars_prefix(sidecars, i + 1);
                }
            }
            if let Err(error) = validate_identity(sidecar.id.as_str()) {
                return Err(error);
            }
            if ids.contains(sidecar.id.as_str()) {
                return Err(
                    SidecarError::InvalidConfig { reason: "sidecar identities must be unique" },
                );
            }
            if let Err(error) = validate_sidecar_shape(sidecar) {
                return Err(error);
            }
            ids.insert(sidecar.id.clone());
            proof {
                assert forall|id: Seq<char>| #[trigger] ids@.contains(id) <==> identifies(
                    reached,
                    id,
                ) by {
                    if identifies(passed, id) {
                        let j = choose|j: int|
                            0 <= j < passed.len() && #[trigger] passed[j].id@ == id;
                        assert(reached[j].id@ == id);
                    }
                    if identifies(reached, id) {
                        let j = choose|j: int|
                            0 <= j < reached.len() && #[trigger] reached[j].id@ == id;
                        if j < i {
                            assert(passed[j].id@ == id);
                        }
                    }
                    if id == sidecar.id@ {
                        assert(reached[i as int].id@ == id);
                    }
                }
            }
            i = i + 1;
        }
        assert(sidecars.take(sidecars.len() as int) =~= sidecars);
        Ok(())
    }

    /// Why there is nothing to resolve for `service`.
    pub open spec fn resolve_fault(self, service: Seq<char>) -> Option<Fault> {
        if !identifies(self.sidecars@, service) {
            Some(Fault::MissingSidecar(service))
        } else {
            self.sidecars@[choose|i: int| first_with_id(
                self.sidecars@,
                service,
                i,
            )].runtime_values_fault()
        }
    }

    /// The definition of a sidecar and its runtime values.
    pub fn resolve(&self, service: &str) -> (outcome: Result<ResolvedSidecarFile, SidecarError>)
        ensures
            reports(outcome, self.resolve_fault(service@)),
            outcome matches Ok(resolved) ==> exists|i: int|
                #[trigger] first_with_id(self.sidecars@, service@, i) && same_definition(
                    resolved.definition,
                    self.sidecars@[i],
                ) && resolved.runtime_values@ == self.sidecars@[i].defined_layers(),
    {
        let mut i: usize = 0;
        while i < self.sidecars.len()
            invariant
                i <= self.sidecars@.len(),
                forall|j: int| 0 <= j < i ==> #[trigger] self.sidecars@[j].id@ != service@,
            decreases self.sidecars@.len() - i,
        {
            if same_text(self.sidecars[i].id.as_str(), service) {
                proof {
                    assert(self.sidecars@[i as int].id@ == service@);
                    assert(identifies(self.sidecars@, service@));
                    assert(first_with_id(self.sidecars@, service@, i as int));
                    let first = choose|i: int| first_with_id(self.sidecars@, service@, i);
                    assert(first_with_id(self.sidecars@, service@, first));
                    assert(first == i) by {
                        if first < i {
                            assert(self.sidecars@[first].id@ != service@);
                        } else if first > i {
                            assert(self.sidecars@[i as int].id@ != service@);
                        }
                    }
                }
                let definition = self.sidecars[i].clone();
                return match self.sidecars[i].runtime_values() {
                    Ok(runtime_values) => Ok(ResolvedSidecarFile { definition, runtime_values }),
                    Err(error) => Err(error),
                };
            }
            i = i + 1;
        }
        Err(SidecarError::MissingSidecar { service: service.to_owned() })
    }
}

proof fn lemma_sidecars_prefix(sidecars: Seq<SidecarDefinition>, n: int)
    requires
        0 <= n <= sidecars.len(),
        sidecars_fault(sidecars.take(n)) is Some,
    ensures
        sidecars_fault(sidecars) == sidecars_fault(sidecars.take(n)),
    decreases sidecars.len(),
{
    if n == sidecars.len() {
        assert(sidecars.take(n) =~= sidecars);
    } else {
        assert(sidecars.drop_last().take(n) =~= sidecars.take(n));
        lemma_sidecars_prefix(sidecars.drop_last(), n);
    }
}

proof fn lemma_sidecars_sound(sidecars: Seq<SidecarDefinition>)
    requires
        sidecars_fault(sidecars) is None,
    ensures
        forall|i: int|
            0 <= i < sidecars.len() ==> (#[trigger] sidecars[i]).shape_fault() is None
                && plain_name(sidecars[i].id@, MAX_SIDECAR_ID_BYTES as nat),
        forall|i: int, j: int|
            0 <= i < j < sidecars.len() ==> #[trigger] sidecars[i].id@
                != #[trigger] sidecars[j].id@,
    decreases sidecars.len(),
{
    if sidecars.len() > 0 {
        let init = sidecars.drop_last();
        lemma_sidecars_sound(init);
        assert forall|i: int| 0 <= i < sidecars.len() implies (#[trigger] sidecars[i]).shape_fault()
            is None && plain_name(sidecars[i].id@, MAX_SIDECAR_ID_BYTES as nat) by {
            if i < init.len() {
                assert(init[i] == sidecars[i]);
            }
        }
        assert forall|i: int, j: int| 0 <= i < j < sidecars.len() implies #[trigger] sidecars[i].id@
            != #[trigger] sidecars[j].id@ by {
            assert(init[i] == sidecars[i]);
            if j < init.len() {
                assert(init[j] == sidecars[j]);
            } else {
                assert(init[i].id@ != sidecars.last().id@);
            }
        }
    }
}

/// A valid file can be resolved for every sidecar that it names, and each of them has
/// one definition alone.
pub proof fn law_valid_files_resolve(file: OresSidecarFile, service: Seq<char>)
    requires
        file.fault() is None,
    ensures
        file.resolve_fault(service) == (if identifies(file.sidecars@, service) {
            None::<Fault>
        } else {
            Some(Fault::MissingSidecar(service))
        }),
        forall|i: int, j: int|
            0 <= i < file.sidecars@.len() && 0 <= j < file.sidecars@.len()
                && #[trigger] file.sidecars@[i].id@ == service && #[trigger] file.sidecars@[j].id@
                == service ==> i == j,
{
    let sidecars = file.sidecars@;
    lemma_sidecars_sound(sidecars);
    if identifies(sidecars, service) {
        let i = choose|i: int| 0 <= i < sidecars.len() && #[trigger] sidecars[i].id@ == service;
        assert forall|j: int| 0 <= j < i implies #[trigger] sidecars[j].id@ != service by {}
        assert(first_with_id(sidecars, service, i));
        let first = choose|i: int| first_with_id(sidecars, service, i);
        assert(first_with_id(sidecars, service, first));
        assert(sidecars[first].shape_fault() is None);
    }
}

/// A valid file never lets a key that looks like a secret be set at run time.
pub proof fn law_valid_files_keep_secrets_out(file: OresSidecarFile, i: int, key: Seq<char>)
    requires
        file.fault() is None,
        0 <= i < file.sidecars@.len(),
        listed(file.sidecars@[i].runtime_mutable@).contains(key),
    ensures
        !crate::runtime_values::sensitive(key),
{
    lemma_sidecars_sound(file.sidecars@);
    assert(file.sidecars@[i].shape_fault() is None);
    crate::runtime_values::lemma_allowlist_sound(file.sidecars@[i].runtime_mutable@, key);
}

/// A policy is sound exactly where it polls every one to three minutes, names its namespace and
/// its cache plainly and shortly, and has provider and mode both off or both on; what is wrong
/// with its numbers and names is said first.
pub proof fn law_which_policies_are_sound(policy: RuntimeUpdatePolicy)
    ensures
        ({
            let named = |name: Seq<char>|
                1 <= name.len() <= 64 && forall|i: int|
                    0 <= i < name.len() ==> {
                        ||| 'a' <= #[trigger] name[i] <= 'z'
                        ||| 'A' <= name[i] <= 'Z'
                        ||| '0' <= name[i] <= '9'
                        ||| name[i] == '-' || name[i] == '_' || name[i] == '.'
                    };
            let bounded = 60 <= policy.poll_seconds <= 180 && named(policy.namespace@) && named(
                policy.cache@,
            );
            let off = policy.provider is Disabled && policy.mode is Disabled;
            let on = policy.provider is OresRedisLruCache && policy.mode is ReceiveOnly;
            &&& policy.fault() is None <==> bounded && (off || on)
            &&& !bounded ==> policy.fault() == Some(
                Fault::InvalidConfig(
                    "runtime update policy is outside Redis-LRU-compatible bounds"@,
                ),
            )
            &&& bounded && !off && !on ==> policy.fault() == Some(
                Fault::InvalidConfig("runtime update provider and mode are incompatible"@),
            )
            &&& policy.enabled() <==> on
        }),
{
    crate::text::law_plain_names(policy.namespace@, 64);
    crate::text::law_plain_names(policy.cache@, 64);
}

/// A sidecar is sound exactly where none of its paths is empty and its policy and its runtime
/// values are sound; what is wrong is said in this order.
pub proof fn law_which_shapes_are_sound(sidecar: SidecarDefinition)
    ensures
        ({
            let empty = (sidecar.path is Some && sidecar.path->0@.len() == 0) || (
            sidecar.startup_config is Some && sidecar.startup_config->0@.len() == 0);
            let policy = sidecar.runtime_updates.fault();
            let values = values_fault(
                sidecar.runtime_mutable@,
                defined_values(sidecar.values@),
            );
            &&& sidecar.shape_fault() is None <==> !empty && policy is None && values is None
            &&& empty ==> sidecar.shape_fault() == Some(
                Fault::InvalidConfig("sidecar path fields cannot be empty"@),
            )
            &&& !empty && policy is Some ==> sidecar.shape_fault() == policy
            &&& !empty && policy is None ==> sidecar.shape_fault() == values
        }),
{
}

/// What a sidecar defines is taken entry by entry, keys with their values, in order, and what
/// may be set at run time starts with it.
pub proof fn law_definitions_are_taken_as_they_are(sidecar: SidecarDefinition, i: int)
    ensures
        defined_values(sidecar.values@).len() == sidecar.values@.len(),
        0 <= i < sidecar.values@.len() ==> defined_values(sidecar.values@)[i] == (
            sidecar.values@[i].key,
            sidecar.values@[i].value,
        ),
        sidecar.defined_layers().overrides == Map::<Seq<char>, String>::empty(),
        0 <= i < sidecar.runtime_mutable@.len()
            ==> sidecar.defined_layers().mutable.contains(sidecar.runtime_mutable@[i]@),
        0 <= i < sidecar.values@.len() && (forall|j: int|
            i < j < sidecar.values@.len() ==> #[trigger] sidecar.values@[j].key@
                != sidecar.values@[i].key@) ==> sidecar.defined_layers().baseline.contains_key(
            sidecar.values@[i].key@,
        ) && sidecar.defined_layers().baseline[sidecar.values@[i].key@]
            == sidecar.values@[i].value,
{
    let entries = defined_values(sidecar.values@);
    let keys = sidecar.runtime_mutable@;
    lemma_listed(keys);
    if 0 <= i < keys.len() {
        assert(lists(keys, keys[i]@));
    }
    if 0 <= i < sidecar.values@.len() && (forall|j: int|
        i < j < sidecar.values@.len() ==> #[trigger] sidecar.values@[j].key@
            != sidecar.values@[i].key@) {
        assert forall|j: int| i < j < entries.len() implies #[trigger] entries[j].0@
            != entries[i].0@ by {
            assert(sidecar.values@[j].key@ != sidecar.values@[i].key@);
        }
        law_last_entry_wins(entries, i);
    }
}

proof fn lemma_sidecars_are_sound(sidecars: Seq<SidecarDefinition>)
    requires
        forall|i: int|
            0 <= i < sidecars.len() ==> (#[trigger] sidecars[i]).shape_fault() is None
                && plain_name(sidecars[i].id@, MAX_SIDECAR_ID_BYTES as nat),
        forall|i: int, j: int|
            0 <= i < j < sidecars.len() ==> #[trigger] sidecars[i].id@
                != #[trigger] sidecars[j].id@,
    ensures
        sidecars_fault(sidecars) is None,
    decreases sidecars.len(),
{
    if sidecars.len() > 0 {
        let init = sidecars.drop_last();
        assert forall|i: int| 0 <= i < init.len() implies #[trigger] init[i] == sidecars[i] by {}
        lemma_sidecars_are_sound(init);
        assert(sidecars.last() == sidecars[sidecars.len() - 1]);
        if identifies(init, sidecars.last().id@) {
            let i = choose|i: int|
                0 <= i < init.len() && #[trigger] init[i].id@ == sidecars.last().id@;
            assert(sidecars[i].id@ == sidecars[sidecars.len() - 1].id@);
        }
    }
}

/// A file is valid exactly where it is of the one schema and has one to sixty-four sidecars,
/// each of them sound and with an identity of its own that is a plain and short name.
pub proof fn law_which_files_are_valid(file: OresSidecarFile)
    ensures
        ({
            let sidecars = file.sidecars@;
            file.fault() is None <==> {
                &&& file.schema@ == "ores.sidecar/config/v1"@
                &&& 1 <= sidecars.len() <= 64
                &&& forall|i: int|
                    0 <= i < sidecars.len() ==> (#[trigger] sidecars[i]).shape_fault() is None
                        && plain_name(sidecars[i].id@, 128)
                &&& forall|i: int, j: int|
                    0 <= i < j < sidecars.len() ==> #[trigger] sidecars[i].id@
                        != #[trigger] sidecars[j].id@
            }
        }),
{
    let sidecars = file.sidecars@;
    if sidecars_fault(sidecars) is None {
        lemma_sidecars_sound(sidecars);
    }
    if (forall|i: int|
        0 <= i < sidecars.len() ==> (#[trigger] sidecars[i]).shape_fault() is None && plain_name(
            sidecars[i].id@,
            128,
        )) && (forall|i: int, j: int|
        0 <= i < j < sidecars.len() ==> #[trigger] sidecars[i].id@ != #[trigger] sidecars[j].id@) {
        lemma_sidecars_are_sound(sidecars);
    }
}

/// The first sidecar that cannot stay refuses the file: by its identity, by that of a sidecar
/// before it, or by its shape, in this order. What stands behind it does not matter.
pub proof fn law_first_bad_sidecar_refuses_a_file(
    passed: Seq<SidecarDefinition>,
    bad: SidecarDefinition,
    rest: Seq<SidecarDefinition>,
)
    requires
        sidecars_fault(passed) is None,
    ensures
        ({
            let verdict = sidecars_fault(passed + seq![bad] + rest);
            let named = plain_name(bad.id@, 128);
            let again = exists|i: int| 0 <= i < passed.len() && #[trigger] passed[i].id@ == bad.id@;
            &&& !named ==> verdict == Some(
                Fault::InvalidConfig("sidecar identity has an invalid shape"@),
            )
            &&& named && again ==> verdict == Some(
                Fault::InvalidConfig("sidecar identities must be unique"@),
            )
            &&& named && !again && bad.shape_fault() is Some ==> verdict == bad.shape_fault()
        }),
{
    let all = passed + seq![bad] + rest;
    let n = passed.len() as int + 1;
    assert(all.take(n).drop_last() =~= passed);
    assert(all.take(n).last() == bad);
    if sidecars_fault(all.take(n)) is Some {
        lemma_sidecars_prefix(all, n);
    }
}

/// A file of another schema is refused for that, whatever else it holds; one with no sidecar or
/// with too many is refused before any of them is looked at.
pub proof fn law_frames_are_judged_first(file: OresSidecarFile)
    ensures
        file.schema@ != "ores.sidecar/config/v1"@ ==> file.fault() == Some(
            Fault::InvalidConfig("unsupported sidecar config schema"@),
        ),
        file.schema@ == "ores.sidecar/config/v1"@ && !(1 <= file.sidecars@.len() <= 64)
            ==> file.fault() == Some(
            Fault::InvalidConfig("sidecar list must be non-empty and bounded"@),
        ),
        file.schema@ == "ores.sidecar/config/v1"@ && 1 <= file.sidecars@.len() <= 64
            ==> file.fault() == sidecars_fault(file.sidecars@),
{
}

/// A text is a valid file where it is short enough and its TOML says one; a text that is too
/// long is refused whatever it says, and one that says nothing is no TOML.
pub proof fn law_which_texts_are_valid(input: Seq<char>, parsed: Option<OresSidecarFile>)
    ensures
        ({
            let verdict = OresSidecarFile::parse_fault(input, parsed);
            let short = encode_utf8(input).len() <= 262_144;
            &&& verdict is None <==> short && parsed is Some && parsed->0.fault() is None
            &&& !short ==> verdict == Some(
                Fault::InvalidConfig("sidecar config exceeds the size limit"@),
            )
            &&& short && parsed is None ==> verdict == Some(
                Fault::InvalidConfig("sidecar config is not valid TOML"@),
            )
            &&& short && parsed is Some ==> verdict == parsed->0.fault()
        }),
{
    law_byte_length(input);
}

/// Bytes are the text of a file exactly where they are no more than fit and are UTF-8.
pub proof fn law_which_bytes_are_texts(bytes: Seq<u8>)
    ensures
        encoding_fault(bytes) is None <==> bytes.len() <= 262_144 && valid_utf8(bytes),
        bytes.len() > 262_144 ==> encoding_fault(bytes) == Some(
            Fault::InvalidConfig("sidecar config exceeds the size limit"@),
        ),
        bytes.len() <= 262_144 && !valid_utf8(bytes) ==> encoding_fault(bytes) == Some(
            Fault::InvalidConfig("sidecar config must be UTF-8"@),
        ),
{
}

/// A sidecar is found by its whole identity: the first one that has it is resolved, and it is
/// missing exactly where none has it.
pub proof fn law_which_sidecar_is_resolved(file: OresSidecarFile, service: Seq<char>, i: int)
    ensures
        (forall|j: int| 0 <= j < file.sidecars@.len() ==> #[trigger] file.sidecars@[j].id@ != service)
            ==> file.resolve_fault(service) == Some(Fault::MissingSidecar(service)),
        0 <= i < file.sidecars@.len() && file.sidecars@[i].id@ == service && (forall|j: int|
            0 <= j < i ==> #[trigger] file.sidecars@[j].id@ != service) ==> first_with_id(
            file.sidecars@,
            service,
            i,
        ) && file.resolve_fault(service) == values_fault(
            file.sidecars@[i].runtime_mutable@,
            defined_values(file.sidecars@[i].values@),
        ),
{
    let sidecars = file.sidecars@;
    if first_with_id(sidecars, service, i) {
        assert(sidecars[i].id@ == service);
        assert(identifies(sidecars, service));
        let first = choose|i: int| first_with_id(sidecars, service, i);
        assert(first_with_id(sidecars, service, first));
        if first < i {
            assert(sidecars[first].id@ != service);
        } else if first > i {
            assert(sidecars[i].id@ != service);
        }
    }
}

/// Definitions that say the same agree in everything that is read of them.
pub proof fn law_same_definitions_agree(a: SidecarDefinition, b: SidecarDefinition)
    requires
        same_definition(a, b),
    ensures
        a.id@ == b.id@,
        a.path == b.path,
        a.startup_config == b.startup_config,
        a.runtime_updates == b.runtime_updates,
        a.runtime_mutable@ == b.runtime_mutable@,
        a.values@ == b.values@,
        a.shape_fault() == b.shape_fault(),
        a.defined_layers() == b.defined_layers(),
{
}

} // verus!
