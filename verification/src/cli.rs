//! What the command line asks for.
//!
//! Flags are parsed by the process around this module, against its declared schema. It
//! hands in what the parser found; the command and the environment in force follow from
//! that.

use crate::text::same_text;
use crate::text_map::{entries_map, TextMap};
use vstd::prelude::*;

verus! {

/// Repository-root schema of the flags that the sidecar binaries accept.
pub const DEFAULT_CONFIG_PATH: &'static str = ".cli-flags.toml";

/// The only process modes accepted by the sidecar executable.
#[derive(Clone, Copy, Debug, PartialEq, Eq, Structural)]
pub enum SidecarCommand {
    Serve,
    /// Validate the startup configuration and exit without listening.
    Preflight,
    ProbeHealthz,
    ProbeReadyz,
}

/// A validated command plus the environment snapshot after flag precedence.
#[derive(Clone, Debug, PartialEq, Eq)]
pub struct CliResolution {
    pub command: SidecarCommand,
    pub values: TextMap<String>,
}

impl CliResolution {
    pub open spec fn environment(self) -> Map<Seq<char>, String> {
        self.values@
    }

    pub fn value(&self, key: &str) -> (value: Option<String>)
        ensures
            value == (if self.environment().contains_key(key@) {
                Some(self.environment()[key@])
            } else {
                None::<String>
            }),
    {
        match self.values.get(key) {
            Some(value) => Some(value.clone()),
            None => None,
        }
    }

    pub fn values(&self) -> (values: &TextMap<String>)
        ensures
            values@ == self.environment(),
    {
        &self.values
    }
}

/// Payload-free CLI failure categories safe to map to closed diagnostics.
#[derive(Clone, Copy, Debug, PartialEq, Eq, Structural)]
pub enum CliError {
    InvalidConfiguration,
    InvalidArguments,
    ParserUnavailable,
}

impl CliError {
    pub open spec fn text(self) -> Seq<char> {
        match self {
            CliError::InvalidConfiguration => "sidecar CLI configuration is invalid"@,
            CliError::InvalidArguments => "sidecar CLI arguments are invalid"@,
            CliError::ParserUnavailable => "sidecar CLI parser is unavailable"@,
        }
    }

    /// The message that reports the error.
    pub fn message(self) -> (text: &'static str)
        ensures
            text@ == self.text(),
    {
        match self {
            CliError::InvalidConfiguration => "sidecar CLI configuration is invalid",
            CliError::InvalidArguments => "sidecar CLI arguments are invalid",
            CliError::ParserUnavailable => "sidecar CLI parser is unavailable",
        }
    }
}

/// What the flag parser found in the arguments.
#[derive(Debug, PartialEq, Eq)]
pub struct ParsedArguments {
    /// The canonical name of the command, empty where there is none.
    pub command: String,
    pub errors: Vec<String>,
    pub unknown_options: Vec<String>,
    /// Operands that no command takes.
    pub extras: Vec<String>,
    pub dotenv: Vec<(String, String)>,
    pub dotenv_overrides: Vec<(String, String)>,
    pub provided_flags: Vec<(String, String)>,
}

/// How the flag parser fared.
#[derive(Debug, PartialEq, Eq)]
pub enum FlagParse {
    /// The schema of the flags does not hold.
    InvalidSchema,
    Unavailable,
    Parsed(ParsedArguments),
}

/// The mode that a command names.
pub open spec fn command_named(name: Seq<char>) -> Option<SidecarCommand> {
    if name.len() == 0 {
        Some(SidecarCommand::Serve)
    } else if name == "preflight"@ {
        Some(SidecarCommand::Preflight)
    } else if name == "probe"@ || name == "probe-healthz"@ {
        Some(SidecarCommand::ProbeHealthz)
    } else if name == "probe-readyz"@ {
        Some(SidecarCommand::ProbeReadyz)
    } else {
        None
    }
}

/// The arguments hold nothing that the schema does not declare.
pub open spec fn declared(parsed: ParsedArguments) -> bool {
    parsed.errors@.len() == 0 && parsed.unknown_options@.len() == 0 && parsed.extras@.len() == 0
}

/// The command of the arguments, or why there is none.
pub open spec fn commanded(parse: FlagParse) -> Result<SidecarCommand, CliError> {
    match parse {
        FlagParse::InvalidSchema => Err(CliError::InvalidConfiguration),
        FlagParse::Unavailable => Err(CliError::ParserUnavailable),
        FlagParse::Parsed(parsed) => if !declared(parsed) {
            Err(CliError::InvalidArguments)
        } else {
            match command_named(parsed.command@) {
                Some(command) => Ok(command),
                None => Err(CliError::InvalidArguments),
            }
        },
    }
}

/// The environment in force: dotenv < process environment < dotenv overrides < flags.
pub open spec fn layered_environment(
    parsed: ParsedArguments,
    process_env: Seq<(String, String)>,
) -> Map<Seq<char>, String> {
    entries_map(parsed.dotenv@).union_prefer_right(entries_map(process_env)).union_prefer_right(
        entries_map(parsed.dotenv_overrides@),
    ).union_prefer_right(entries_map(parsed.provided_flags@))
}

fn named_command(name: &str) -> (command: Option<SidecarCommand>)
    ensures
        command == command_named(name@),
{
    if name.is_empty() {
        Some(SidecarCommand::Serve)
    } else if same_text(name, "preflight") {
        Some(SidecarCommand::Preflight)
    } else if same_text(name, "probe") || same_text(name, "probe-healthz") {
        Some(SidecarCommand::ProbeHealthz)
    } else if same_text(name, "probe-readyz") {
        Some(SidecarCommand::ProbeReadyz)
    } else {
        None
    }
}

/// Resolve parsed arguments and the process environment to a command and the values in
/// force.
pub fn resolve(parse: FlagParse, process_env: Vec<(String, String)>) -> (outcome: Result<
    CliResolution,
    CliError,
>)
    ensures
        match outcome {
            Ok(resolution) => {
                &&& commanded(parse) == Ok::<SidecarCommand, CliError>(resolution.command)
                &&& resolution.environment() == layered_environment(
                    parse->Parsed_0,
                    process_env@,
                )
            },
            Err(error) => commanded(parse) == Err::<SidecarCommand, CliError>(error),
        },
{
    let parsed = match parse {
        FlagParse::InvalidSchema => return Err(CliError::InvalidConfiguration),
        FlagParse::Unavailable => return Err(CliError::ParserUnavailable),
        FlagParse::Parsed(parsed) => parsed,
    };
    if parsed.errors.len() != 0 || parsed.unknown_options.len() != 0 || parsed.extras.len() != 0 {
        return Err(CliError::InvalidArguments);
    }
    let command = match named_command(parsed.command.as_str()) {
        Some(command) => command,
        None => return Err(CliError::InvalidArguments),
    };
    let mut values = TextMap::from_entries(parsed.dotenv);
    values.extend(process_env);
    values.extend(parsed.dotenv_overrides);
    values.extend(parsed.provided_flags);
    Ok(CliResolution { command, values })
}

/// A flag on the command line has the last word, and the process environment gives way
/// only to a flag or a declared override.
pub proof fn law_flags_win(
    parsed: ParsedArguments,
    process_env: Seq<(String, String)>,
    key: Seq<char>,
)
    ensures
        ({
            let values = layered_environment(parsed, process_env);
            let flags = entries_map(parsed.provided_flags@);
            let overridden = entries_map(parsed.dotenv_overrides@);
            let environment = entries_map(process_env);
            &&& flags.contains_key(key) ==> values.contains_key(key) && values[key] == flags[key]
            &&& environment.contains_key(key) && !flags.contains_key(key)
                && !overridden.contains_key(key) ==> values.contains_key(key) && values[key]
                == environment[key]
            &&& values.contains_key(key) <==> flags.contains_key(key) || overridden.contains_key(
                key,
            ) || environment.contains_key(key) || entries_map(parsed.dotenv@).contains_key(key)
        }),
{
}

/// The value in force for a key is the one that the highest source gives it: a flag, a dotenv
/// override, the process environment or a dotenv default, in this order.
pub proof fn law_where_values_come_from(
    parsed: ParsedArguments,
    process_env: Seq<(String, String)>,
    key: Seq<char>,
)
    ensures
        ({
            let values = layered_environment(parsed, process_env);
            let flags = entries_map(parsed.provided_flags@);
            let overrides = entries_map(parsed.dotenv_overrides@);
            let environment = entries_map(process_env);
            let defaults = entries_map(parsed.dotenv@);
            let by_flag = flags.contains_key(key);
            let by_override = !by_flag && overrides.contains_key(key);
            let by_environment = !by_flag && !overrides.contains_key(key)
                && environment.contains_key(key);
            let by_default = !by_flag && !overrides.contains_key(key) && !environment.contains_key(
                key,
            ) && defaults.contains_key(key);
            &&& values.contains_key(key) <==> by_flag || by_override || by_environment
                || by_default
            &&& by_flag ==> values[key] == flags[key]
            &&& by_override ==> values[key] == overrides[key]
            &&& by_environment ==> values[key] == environment[key]
            &&& by_default ==> values[key] == defaults[key]
        }),
{
}

/// A command line is accepted exactly where the parser found nothing that is not declared and
/// one of the known commands or none; the parser's own failures have names of their own.
pub proof fn law_which_commands_are_accepted(parsed: ParsedArguments)
    ensures
        ({
            let verdict = commanded(FlagParse::Parsed(parsed));
            let clean = parsed.errors@.len() == 0 && parsed.unknown_options@.len() == 0
                && parsed.extras@.len() == 0;
            let name = parsed.command@;
            let gives = |command: SidecarCommand|
                verdict == Ok::<SidecarCommand, CliError>(command);
            &&& !clean ==> verdict == Err::<SidecarCommand, CliError>(CliError::InvalidArguments)
            &&& clean && name.len() == 0 ==> gives(SidecarCommand::Serve)
            &&& clean && name == "preflight"@ ==> gives(SidecarCommand::Preflight)
            &&& clean && (name == "probe"@ || name == "probe-healthz"@) ==> gives(
                SidecarCommand::ProbeHealthz,
            )
            &&& clean && name == "probe-readyz"@ ==> gives(SidecarCommand::ProbeReadyz)
            &&& clean && name.len() != 0 && name != "preflight"@ && name != "probe"@ && name
                != "probe-healthz"@ && name != "probe-readyz"@ ==> verdict == Err::<
                SidecarCommand,
                CliError,
            >(CliError::InvalidArguments)
            &&& commanded(FlagParse::InvalidSchema) == Err::<SidecarCommand, CliError>(
                CliError::InvalidConfiguration,
            )
            &&& commanded(FlagParse::Unavailable) == Err::<SidecarCommand, CliError>(
                CliError::ParserUnavailable,
            )
        }),
{
    reveal_strlit("preflight");
    reveal_strlit("probe");
    reveal_strlit("probe-healthz");
    reveal_strlit("probe-readyz");
    assert("preflight"@.len() == 9 && "probe"@.len() == 5);
    assert("probe-healthz"@.len() == 13 && "probe-readyz"@.len() == 12);
}

} // verus!
