//! What a sidecar process does with its command, and how it exits.

use crate::cli::SidecarCommand;
use crate::log::{Operation, Outcome, Severity};
use vstd::prelude::*;

verus! {

pub const DEFAULT_CLI_CONFIG_PATH: &'static str = crate::cli::DEFAULT_CONFIG_PATH;

/// What a validated command asks the process to do.
#[derive(Clone, Copy, Debug, PartialEq, Eq)]
pub enum RuntimeAction {
    /// Listen and serve until the listener fails.
    Serve,
    /// Probe one health endpoint once.
    Probe { path: &'static str },
    /// Leave with this code at once.
    Exit { code: i32 },
}

/// What a [`RuntimeAction`] says.
pub enum Intent {
    Serve,
    Probe(Seq<char>),
    Exit(i32),
}

impl View for RuntimeAction {
    type V = Intent;

    open spec fn view(&self) -> Intent {
        match *self {
            RuntimeAction::Serve => Intent::Serve,
            RuntimeAction::Probe { path } => Intent::Probe(path@),
            RuntimeAction::Exit { code } => Intent::Exit(code),
        }
    }
}

/// What a command asks for. The startup configuration was validated before, so that a
/// preflight has nothing left to do.
pub open spec fn intended(command: SidecarCommand) -> Intent {
    match command {
        SidecarCommand::Serve => Intent::Serve,
        SidecarCommand::Preflight => Intent::Exit(0),
        SidecarCommand::ProbeHealthz => Intent::Probe("/healthz"@),
        SidecarCommand::ProbeReadyz => Intent::Probe("/readyz"@),
    }
}

/// Decide what an already validated command does.
pub fn run_command(command: SidecarCommand) -> (action: RuntimeAction)
    ensures
        action@ == intended(command),
{
    match command {
        SidecarCommand::Serve => RuntimeAction::Serve,
        SidecarCommand::Preflight => RuntimeAction::Exit { code: 0 },
        SidecarCommand::ProbeHealthz => RuntimeAction::Probe { path: "/healthz" },
        SidecarCommand::ProbeReadyz => RuntimeAction::Probe { path: "/readyz" },
    }
}

/// The diagnostic that a process leaves behind.
#[derive(Clone, Copy, Debug, PartialEq, Eq, Structural)]
pub struct ExitReport {
    pub severity: Severity,
    pub operation: Operation,
    pub outcome: Outcome,
    pub retryable: bool,
}

/// How a process leaves: with a code, and with a diagnostic where something went wrong.
#[derive(Clone, Copy, Debug, PartialEq, Eq, Structural)]
pub struct ProcessExit {
    pub code: i32,
    pub report: Option<ExitReport>,
}

/// The exit of a process whose command line is invalid.
pub fn exit_invalid_cli() -> (exit: ProcessExit)
    ensures
        exit == (ProcessExit {
            code: 2,
            report: Some(
                ExitReport {
                    severity: Severity::Fatal,
                    operation: Operation::SidecarConfigure,
                    outcome: Outcome::Rejected,
                    retryable: false,
                },
            ),
        }),
{
    ProcessExit {
        code: 2,
        report: Some(
            ExitReport {
                severity: Severity::Fatal,
                operation: Operation::SidecarConfigure,
                outcome: Outcome::Rejected,
                retryable: false,
            },
        ),
    }
}

/// The exit of a process whose configuration is invalid.
pub fn exit_invalid_config() -> (exit: ProcessExit)
    ensures
        exit == (ProcessExit {
            code: 1,
            report: Some(
                ExitReport {
                    severity: Severity::Fatal,
                    operation: Operation::SidecarConfigure,
                    outcome: Outcome::Rejected,
                    retryable: false,
                },
            ),
        }),
{
    ProcessExit {
        code: 1,
        report: Some(
            ExitReport {
                severity: Severity::Fatal,
                operation: Operation::SidecarConfigure,
                outcome: Outcome::Rejected,
                retryable: false,
            },
        ),
    }
}

/// The exit of a process whose listener failed.
pub fn exit_listen_failed() -> (exit: ProcessExit)
    ensures
        exit == (ProcessExit {
            code: 1,
            report: Some(
                ExitReport {
                    severity: Severity::Fatal,
                    operation: Operation::SidecarListen,
                    outcome: Outcome::Failed,
                    retryable: false,
                },
            ),
        }),
{
    ProcessExit {
        code: 1,
        report: Some(
            ExitReport {
                severity: Severity::Fatal,
                operation: Operation::SidecarListen,
                outcome: Outcome::Failed,
                retryable: false,
            },
        ),
    }
}

/// The code that a probe exits with: zero for the status code 200 alone. A probe that
/// could not be made has no status code.
pub fn probe_exit(status: Option<u16>) -> (code: i32)
    ensures
        code == (if status == Some(200u16) {
            0i32
        } else {
            1i32
        }),
{
    match status {
        Some(200) => 0,
        _ => 1,
    }
}

/// The exit of a process after its probe.
pub fn exit_probe(status: Option<u16>) -> (exit: ProcessExit)
    ensures
        exit == (if status == Some(200u16) {
            ProcessExit { code: 0, report: None }
        } else {
            ProcessExit {
                code: 1,
                report: Some(
                    ExitReport {
                        severity: Severity::Error,
                        operation: Operation::SidecarProbe,
                        outcome: Outcome::Failed,
                        retryable: true,
                    },
                ),
            }
        }),
{
    let code = probe_exit(status);
    if code != 0 {
        return ProcessExit {
            code,
            report: Some(
                ExitReport {
                    severity: Severity::Error,
                    operation: Operation::SidecarProbe,
                    outcome: Outcome::Failed,
                    retryable: true,
                },
            ),
        };
    }
    ProcessExit { code, report: None }
}

/// A probe that a command asks for is one that the endpoints allow.
pub proof fn law_commanded_probes_are_allowed(command: SidecarCommand)
    ensures
        intended(command) matches Intent::Probe(path) ==> crate::http::probe_path(path),
{
}

/// Without a command the process serves, a preflight leaves at once and without a fault, and
/// each probe asks the endpoint that it is named for.
pub proof fn law_what_commands_ask_for(command: SidecarCommand)
    ensures
        intended(command) is Serve <==> command == SidecarCommand::Serve,
        command == SidecarCommand::Preflight ==> intended(command) == Intent::Exit(0),
        command == SidecarCommand::ProbeHealthz ==> intended(command) == Intent::Probe(
            "/healthz"@,
        ),
        command == SidecarCommand::ProbeReadyz ==> intended(command) == Intent::Probe("/readyz"@),
{
}

/// A probe succeeds for one status code alone, and leaves a diagnostic behind exactly where it
/// does not.
pub proof fn law_how_probes_end(status: Option<u16>, code: i32, exit: ProcessExit)
    requires
        call_ensures(probe_exit, (status,), code),
        call_ensures(exit_probe, (status,), exit),
    ensures
        exit.code == code,
        code == 0 <==> status is Some && status->0 == 200,
        code == 0 || code == 1,
        exit.report is None <==> code == 0,
{
}

} // verus!
