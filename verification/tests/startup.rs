use ores_otel_sidecar::cli::{
    resolve, CliError, FlagParse, ParsedArguments, SidecarCommand,
};
use ores_otel_sidecar::runtime::{
    exit_invalid_cli, exit_invalid_config, exit_listen_failed, exit_probe, probe_exit, run_command,
    RuntimeAction, DEFAULT_CLI_CONFIG_PATH,
};
use ores_otel_sidecar::log::{Operation, Outcome, Severity};
use ores_otel_sidecar::startup_env::{
    preflight_startup, preflight_startup_with_keys, startup_bindings, EnvDiagnostic, EnvValue,
    EnvValueKind, ENV_CONTRACT,
};
use ores_otel_sidecar::text_map::TextMap;

fn parsed(command: &str) -> ParsedArguments {
    ParsedArguments {
        command: command.to_owned(),
        errors: Vec::new(),
        unknown_options: Vec::new(),
        extras: Vec::new(),
        dotenv: Vec::new(),
        dotenv_overrides: Vec::new(),
        provided_flags: Vec::new(),
    }
}

fn pair(key: &str, value: &str) -> (String, String) {
    (key.to_owned(), value.to_owned())
}

#[test]
fn no_command_preserves_server_mode_and_process_environment() {
    let resolved = resolve(
        FlagParse::Parsed(parsed("")),
        vec![pair("ORES_OTEL_SIDECAR_BIND", "127.0.0.1:19090")],
    )
    .expect("resolve server mode");

    assert_eq!(resolved.command, SidecarCommand::Serve);
    assert_eq!(
        resolved.value("ORES_OTEL_SIDECAR_BIND").as_deref(),
        Some("127.0.0.1:19090")
    );
}

#[test]
fn probe_aliases_resolve_to_canonical_modes() {
    for (name, expected) in [
        ("probe", SidecarCommand::ProbeHealthz),
        ("probe-healthz", SidecarCommand::ProbeHealthz),
        ("probe-readyz", SidecarCommand::ProbeReadyz),
    ] {
        let resolved = resolve(FlagParse::Parsed(parsed(name)), Vec::new())
            .expect("resolve probe mode");
        assert_eq!(resolved.command, expected);
    }
    let preflight = resolve(FlagParse::Parsed(parsed("preflight")), Vec::new()).unwrap();
    assert_eq!(preflight.command, SidecarCommand::Preflight);
}

#[test]
fn argv_flags_override_process_environment_after_a_command() {
    let mut arguments = parsed("probe");
    arguments.provided_flags = vec![pair("ORES_OTEL_SIDECAR_BIND", "127.0.0.1:19191")];
    let resolved = resolve(
        FlagParse::Parsed(arguments),
        vec![pair("ORES_OTEL_SIDECAR_BIND", "127.0.0.1:19090")],
    )
    .expect("resolve argv override");

    assert_eq!(resolved.command, SidecarCommand::ProbeHealthz);
    assert_eq!(
        resolved.value("ORES_OTEL_SIDECAR_BIND").as_deref(),
        Some("127.0.0.1:19191")
    );
}

#[test]
fn unknown_options_and_unexpected_operands_fail_closed() {
    let mut unknown = parsed("");
    unknown.unknown_options.push("--not-declared".to_owned());
    let mut operand = parsed("probe");
    operand.extras.push("unexpected".to_owned());
    let mut erroneous = parsed("");
    erroneous
        .errors
        .push("Authorization=Bearer-synthetic-secret".to_owned());
    for arguments in [
        unknown,
        operand,
        erroneous,
        parsed("Authorization=Bearer-synthetic-secret"),
    ] {
        assert_eq!(
            resolve(FlagParse::Parsed(arguments), Vec::new()),
            Err(CliError::InvalidArguments)
        );
    }
}

#[test]
fn precedence_goes_from_dotenv_to_flags() {
    let mut arguments = parsed("");
    arguments.dotenv = vec![pair("A", "dotenv"), pair("B", "dotenv"), pair("E", "first")];
    arguments.dotenv.push(pair("E", "second"));
    arguments.dotenv_overrides = vec![pair("C", "override"), pair("B", "override")];
    arguments.provided_flags = vec![pair("D", "flag"), pair("C", "flag")];
    let resolved = resolve(
        FlagParse::Parsed(arguments),
        vec![pair("A", "env"), pair("B", "env"), pair("D", "env")],
    )
    .unwrap();
    assert_eq!(resolved.value("A").as_deref(), Some("env"));
    assert_eq!(resolved.value("B").as_deref(), Some("override"));
    assert_eq!(resolved.value("C").as_deref(), Some("flag"));
    assert_eq!(resolved.value("D").as_deref(), Some("flag"));
    assert_eq!(resolved.value("E").as_deref(), Some("second"));
    assert_eq!(resolved.value("F"), None);
    assert_eq!(resolved.values().len(), 5);
}

#[test]
fn parser_failures_are_categories() {
    assert_eq!(
        resolve(FlagParse::InvalidSchema, Vec::new()),
        Err(CliError::InvalidConfiguration)
    );
    assert_eq!(
        resolve(FlagParse::Unavailable, Vec::new()),
        Err(CliError::ParserUnavailable)
    );
    assert_eq!(
        CliError::InvalidConfiguration.message(),
        "sidecar CLI configuration is invalid"
    );
    assert_eq!(
        CliError::InvalidArguments.message(),
        "sidecar CLI arguments are invalid"
    );
    assert_eq!(
        CliError::ParserUnavailable.message(),
        "sidecar CLI parser is unavailable"
    );
}

fn resolved(bind: EnvValue, allow: EnvValue) -> TextMap<EnvValue> {
    TextMap::from_entries(vec![
        ("allow_non_loopback".to_owned(), allow),
        ("bind".to_owned(), bind),
    ])
}

#[test]
fn valid_snapshot_returns_typed_config() {
    let config = preflight_startup(Ok(resolved(
        EnvValue::Text("127.0.0.1:9090".to_owned()),
        EnvValue::Flag(false),
    )))
    .unwrap();
    assert_eq!(config.bind, "127.0.0.1:9090");
    assert!(!config.allow_non_loopback);
}

#[test]
fn startup_bindings_are_required_and_typed() {
    let bindings = startup_bindings("A_BIND", "A_ALLOW");
    assert_eq!(bindings.len(), 2);
    assert_eq!(bindings[0].name, "bind");
    assert_eq!(bindings[0].key, "A_BIND");
    assert_eq!(bindings[0].kind, EnvValueKind::Text);
    assert_eq!(bindings[1].name, "allow_non_loopback");
    assert_eq!(bindings[1].key, "A_ALLOW");
    assert_eq!(bindings[1].kind, EnvValueKind::Flag);
}

#[test]
fn broken_contracts_name_their_key() {
    let errors = preflight_startup_with_keys(
        Ok(resolved(EnvValue::Flag(true), EnvValue::Flag(true))),
        "A_BIND",
        "A_ALLOW",
    )
    .unwrap_err();
    assert_eq!(
        errors,
        vec![EnvDiagnostic {
            code: ENV_CONTRACT,
            name: "A_BIND".to_owned(),
            expected: "string".to_owned(),
            secret: false,
        }]
    );
    let errors = preflight_startup(Ok(resolved(
        EnvValue::Text("127.0.0.1:9090".to_owned()),
        EnvValue::Text("true".to_owned()),
    )))
    .unwrap_err();
    assert_eq!(errors.len(), 1);
    assert_eq!(errors[0].name, "ORES_OTEL_SIDECAR_ALLOW_NON_LOOPBACK");
    assert_eq!(errors[0].expected, "bool");
    let errors = preflight_startup(Ok(TextMap::new())).unwrap_err();
    assert_eq!(errors[0].name, "ORES_OTEL_SIDECAR_BIND");
    let reported = vec![EnvDiagnostic {
        code: "ENV_MISSING",
        name: "ORES_OTEL_SIDECAR_BIND".to_owned(),
        expected: "string".to_owned(),
        secret: false,
    }];
    assert_eq!(
        preflight_startup(Err(reported)).unwrap_err()[0].code,
        "ENV_MISSING"
    );
}

#[test]
fn commands_ask_for_their_action() {
    assert_eq!(DEFAULT_CLI_CONFIG_PATH, ".cli-flags.toml");
    assert_eq!(run_command(SidecarCommand::Serve), RuntimeAction::Serve);
    assert_eq!(
        run_command(SidecarCommand::Preflight),
        RuntimeAction::Exit { code: 0 }
    );
    assert_eq!(
        run_command(SidecarCommand::ProbeHealthz),
        RuntimeAction::Probe { path: "/healthz" }
    );
    assert_eq!(
        run_command(SidecarCommand::ProbeReadyz),
        RuntimeAction::Probe { path: "/readyz" }
    );
}

#[test]
fn exits_carry_their_code_and_diagnostic() {
    assert_eq!(probe_exit(Some(200)), 0);
    assert_eq!(probe_exit(Some(503)), 1);
    assert_eq!(probe_exit(None), 1);
    assert_eq!(exit_probe(Some(200)).report, None);
    let failed = exit_probe(Some(204));
    assert_eq!(failed.code, 1);
    let report = failed.report.unwrap();
    assert_eq!(report.severity, Severity::Error);
    assert_eq!(report.operation, Operation::SidecarProbe);
    assert!(report.retryable);
    assert_eq!(exit_invalid_cli().code, 2);
    assert_eq!(exit_invalid_config().code, 1);
    assert_eq!(exit_invalid_cli().report, exit_invalid_config().report);
    let listen = exit_listen_failed();
    assert_eq!(listen.code, 1);
    assert_eq!(listen.report.unwrap().operation, Operation::SidecarListen);
    assert_eq!(listen.report.unwrap().outcome, Outcome::Failed);
}
