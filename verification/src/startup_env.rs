//! The typed startup environment, admitted before anything else is initialized.
//!
//! Resolving typed bindings against the environment belongs to the process around this
//! module. It resolves the bindings that [`startup_bindings`] lists and hands in the
//! typed values, or the diagnostics where they do not resolve.

use crate::identity::{ALLOW_NON_LOOPBACK, BIND};
use crate::text_map::TextMap;
use vstd::prelude::*;

verus! {

/// A binding resolved to something else than it was declared as.
pub const ENV_CONTRACT: &'static str = "ENV_CONTRACT";

/// Immutable, typed sidecar startup environment admitted before application
/// initialization.
#[derive(Clone, Debug, PartialEq, Eq)]
pub struct StartupEnv {
    pub bind: String,
    pub allow_non_loopback: bool,
}

#[derive(Clone, Copy, Debug, PartialEq, Eq, Structural)]
pub enum EnvValueKind {
    Text,
    Flag,
}

/// A value that has to be there: its name here, its environment key and its type.
#[derive(Debug, PartialEq, Eq)]
pub struct EnvBinding {
    pub name: &'static str,
    pub key: String,
    pub kind: EnvValueKind,
}

/// A resolved value.
#[derive(Debug, PartialEq, Eq)]
pub enum EnvValue {
    Text(String),
    Flag(bool),
}

/// Why a binding did not resolve. The rejected value is never part of it.
#[derive(Debug, PartialEq, Eq)]
pub struct EnvDiagnostic {
    pub code: &'static str,
    pub name: String,
    pub expected: String,
    pub secret: bool,
}

/// The bindings of a startup environment under some keys.
pub fn startup_bindings(bind_key: &str, allow_key: &str) -> (bindings: Vec<EnvBinding>)
    ensures
        bindings@.len() == 2,
        bindings@[0].name@ == "bind"@,
        bindings@[0].key@ == bind_key@,
        bindings@[0].kind == EnvValueKind::Text,
        bindings@[1].name@ == "allow_non_loopback"@,
        bindings@[1].key@ == allow_key@,
        bindings@[1].kind == EnvValueKind::Flag,
{
    let mut bindings: Vec<EnvBinding> = Vec::new();
    bindings.push(
        EnvBinding { name: "bind", key: bind_key.to_owned(), kind: EnvValueKind::Text },
    );
    bindings.push(
        EnvBinding {
            name: "allow_non_loopback",
            key: allow_key.to_owned(),
            kind: EnvValueKind::Flag,
        },
    );
    bindings
}

/// The text that is resolved under `name`.
pub open spec fn resolved_text(
    resolved: Map<Seq<char>, EnvValue>,
    name: Seq<char>,
) -> Option<String> {
    if !resolved.contains_key(name) {
        None
    } else if let EnvValue::Text(text) = resolved[name] {
        Some(text)
    } else {
        None
    }
}

/// The flag that is resolved under `name`.
pub open spec fn resolved_flag(
    resolved: Map<Seq<char>, EnvValue>,
    name: Seq<char>,
) -> Option<bool> {
    if !resolved.contains_key(name) {
        None
    } else if let EnvValue::Flag(flag) = resolved[name] {
        Some(flag)
    } else {
        None
    }
}

/// The one diagnostic that `key` did not resolve as `expected`.
pub open spec fn breaks_contract(
    diagnostics: Seq<EnvDiagnostic>,
    key: Seq<char>,
    expected: Seq<char>,
) -> bool {
    &&& diagnostics.len() == 1
    &&& diagnostics[0].code@ == ENV_CONTRACT@
    &&& diagnostics[0].name@ == key
    &&& diagnostics[0].expected@ == expected
    &&& !diagnostics[0].secret
}

fn contract_diagnostics(key: &str, expected: &str) -> (diagnostics: Vec<EnvDiagnostic>)
    ensures
        breaks_contract(diagnostics@, key@, expected@),
{
    let mut diagnostics: Vec<EnvDiagnostic> = Vec::new();
    diagnostics.push(
        EnvDiagnostic {
            code: ENV_CONTRACT,
            name: key.to_owned(),
            expected: expected.to_owned(),
            secret: false,
        },
    );
    diagnostics
}

/// `outcome` is what resolved bindings under some keys come to.
pub open spec fn admits(
    resolved: Result<TextMap<EnvValue>, Vec<EnvDiagnostic>>,
    bind_key: Seq<char>,
    allow_key: Seq<char>,
    outcome: Result<StartupEnv, Vec<EnvDiagnostic>>,
) -> bool {
    match resolved {
        Err(diagnostics) => outcome == Err::<StartupEnv, Vec<EnvDiagnostic>>(diagnostics),
        Ok(values) => match (
            resolved_text(values@, "bind"@),
            resolved_flag(values@, "allow_non_loopback"@),
        ) {
            (Some(bind), Some(allow_non_loopback)) => outcome == Ok::<
                StartupEnv,
                Vec<EnvDiagnostic>,
            >(StartupEnv { bind, allow_non_loopback }),
            (None, _) => outcome matches Err(diagnostics) && breaks_contract(
                diagnostics@,
                bind_key,
                "string"@,
            ),
            (Some(_), None) => outcome matches Err(diagnostics) && breaks_contract(
                diagnostics@,
                allow_key,
                "bool"@,
            ),
        },
    }
}

/// Validate the final environment snapshot before any sidecar runtime is initialized.
/// `resolved` is what resolving the startup bindings under these keys gave.
pub fn preflight_startup_with_keys(
    resolved: Result<TextMap<EnvValue>, Vec<EnvDiagnostic>>,
    bind_key: &str,
    allow_key: &str,
) -> (outcome: Result<StartupEnv, Vec<EnvDiagnostic>>)
    ensures
        admits(resolved, bind_key@, allow_key@, outcome),
{
    let values = match resolved {
        Ok(values) => values,
        Err(diagnostics) => return Err(diagnostics),
    };
    let bind = match values.get("bind") {
        Some(EnvValue::Text(bind)) => bind.clone(),
        _ => return Err(contract_diagnostics(bind_key, "string")),
    };
    let allow_non_loopback = match values.get("allow_non_loopback") {
        Some(EnvValue::Flag(allow)) => *allow,
        _ => return Err(contract_diagnostics(allow_key, "bool")),
    };
    Ok(StartupEnv { bind, allow_non_loopback })
}

/// Validate the final environment snapshot under the keys of this sidecar.
pub fn preflight_startup(resolved: Result<TextMap<EnvValue>, Vec<EnvDiagnostic>>) -> (outcome:
    Result<StartupEnv, Vec<EnvDiagnostic>>)
    ensures
        admits(resolved, BIND@, ALLOW_NON_LOOPBACK@, outcome),
{
    preflight_startup_with_keys(resolved, BIND, ALLOW_NON_LOOPBACK)
}

/// The startup environment is admitted exactly where the bind resolved to a text and the
/// permission to a flag, and then it is these two.
pub proof fn law_what_is_admitted(
    values: TextMap<EnvValue>,
    bind_key: Seq<char>,
    allow_key: Seq<char>,
    outcome: Result<StartupEnv, Vec<EnvDiagnostic>>,
    bind: String,
    allow: bool,
)
    requires
        admits(Ok(values), bind_key, allow_key, outcome),
        values@.contains_key("bind"@) && values@["bind"@] == EnvValue::Text(bind),
        values@.contains_key("allow_non_loopback"@) && values@["allow_non_loopback"@]
            == EnvValue::Flag(allow),
    ensures
        outcome matches Ok(environment) && environment.bind == bind
            && environment.allow_non_loopback == allow,
{
}

/// What did not resolve as declared is refused by one diagnostic that names its key and the
/// type it should have had, the bind first; what was reported before is handed on as it is.
/// Nothing that was resolved shows in it.
pub proof fn law_what_is_refused(
    values: TextMap<EnvValue>,
    reported: Vec<EnvDiagnostic>,
    bind_key: Seq<char>,
    allow_key: Seq<char>,
    outcome: Result<StartupEnv, Vec<EnvDiagnostic>>,
)
    ensures
        admits(Err(reported), bind_key, allow_key, outcome) ==> outcome == Err::<
            StartupEnv,
            Vec<EnvDiagnostic>,
        >(reported),
        admits(Ok(values), bind_key, allow_key, outcome) && (!values@.contains_key("bind"@)
            || !(values@["bind"@] is Text)) ==> (outcome matches Err(diagnostics)
            && diagnostics@.len() == 1 && diagnostics@[0].code@ == "ENV_CONTRACT"@
            && diagnostics@[0].name@ == bind_key && diagnostics@[0].expected@ == "string"@
            && !diagnostics@[0].secret),
        admits(Ok(values), bind_key, allow_key, outcome) && values@.contains_key("bind"@)
            && values@["bind"@] is Text && (!values@.contains_key("allow_non_loopback"@) || !(
        values@["allow_non_loopback"@] is Flag)) ==> (outcome matches Err(diagnostics)
            && diagnostics@.len() == 1 && diagnostics@[0].code@ == "ENV_CONTRACT"@
            && diagnostics@[0].name@ == allow_key && diagnostics@[0].expected@ == "bool"@
            && !diagnostics@[0].secret),
{
}

} // verus!
