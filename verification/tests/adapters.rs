use ores_otel_sidecar::adapters::linux_process_lifecycle::{
    after_poll, begin_wait, command_outcome, dump_arguments, parse_event_flag, parse_pid,
    parse_status, restore_arguments, CgroupV2Controller, CgroupV2Status, CriuArgument,
    CriuController, CriuLifecycleError, CriuOperation, FreezeWait, LinuxLifecycleError,
};
use ores_otel_sidecar::adapters::process_lifecycle_lease::{
    FencedLifecycleGrant, LifecycleLeaseScope, LifecycleLeaseScopeError, MAX_SEGMENT_BYTES,
};

#[test]
fn parses_cgroup_v2_status() {
    let input = "populated 1\nfrozen 0\n";

    assert_eq!(parse_event_flag(input, "populated"), Ok(true));
    assert_eq!(parse_event_flag(input, "frozen"), Ok(false));
}

#[test]
fn rejects_missing_cgroup_event() {
    let input = "populated 1\n";
    let result = parse_event_flag(input, "frozen");

    assert!(matches!(
        result,
        Err(LinuxLifecycleError::MissingCgroupEvent { key: "frozen" })
    ));
}

#[test]
fn cgroup_status_reads_both_flags_and_carriage_returns() {
    assert_eq!(
        parse_status("populated 1\r\nfrozen 1\r\n"),
        Ok(CgroupV2Status {
            populated: true,
            frozen: true
        })
    );
    assert_eq!(
        parse_status("frozen 0"),
        Err(LinuxLifecycleError::MissingCgroupEvent { key: "populated" })
    );
    assert_eq!(
        parse_status("populated 1\nfrozen 2\n"),
        Err(LinuxLifecycleError::InvalidCgroupEvent { key: "frozen" })
    );
    assert_eq!(
        parse_status("populated 1\nfrozen 1\r"),
        Err(LinuxLifecycleError::InvalidCgroupEvent { key: "frozen" })
    );
    assert_eq!(
        parse_event_flag("frozen 1\nfrozen 0\n", "frozen"),
        Ok(true)
    );
}

#[test]
fn waiting_for_a_freeze_ends_in_one_of_three_ways() {
    let thawed = CgroupV2Status {
        populated: true,
        frozen: false,
    };
    let frozen = CgroupV2Status {
        populated: true,
        frozen: true,
    };
    assert_eq!(
        begin_wait(true),
        FreezeWait::Finished(Err(LinuxLifecycleError::InvalidPollInterval))
    );
    assert_eq!(begin_wait(false), FreezeWait::PollAgain);
    assert_eq!(after_poll(Ok(thawed), false), FreezeWait::PollAgain);
    assert_eq!(
        after_poll(Ok(thawed), true),
        FreezeWait::Finished(Err(LinuxLifecycleError::FreezeTimeout))
    );
    assert_eq!(after_poll(Ok(frozen), true), FreezeWait::Finished(Ok(())));
    assert_eq!(
        after_poll(
            Err(LinuxLifecycleError::Io {
                message: "gone".to_owned()
            }),
            false
        ),
        FreezeWait::Finished(Err(LinuxLifecycleError::Io {
            message: "gone".to_owned()
        }))
    );
}

#[test]
fn cgroup_requests_name_the_freeze_file() {
    let controller = CgroupV2Controller::new("/sys/fs/cgroup/tenant");
    let freeze = controller.request_freeze();
    assert_eq!(freeze.directory, "/sys/fs/cgroup/tenant");
    assert_eq!(freeze.file, "cgroup.freeze");
    assert_eq!(freeze.contents, "1\n");
    assert_eq!(controller.request_thaw().contents, "0\n");
}

#[test]
fn linux_errors_have_their_messages() {
    assert_eq!(
        LinuxLifecycleError::MissingCgroupEvent { key: "frozen" }.message(),
        "cgroup.events is missing frozen"
    );
    assert_eq!(
        LinuxLifecycleError::InvalidCgroupEvent { key: "frozen" }.message(),
        "cgroup.events has invalid frozen"
    );
    assert_eq!(
        LinuxLifecycleError::Io {
            message: "gone".to_owned()
        }
        .message(),
        "linux lifecycle I/O failed: gone"
    );
    assert_eq!(
        LinuxLifecycleError::InvalidPollInterval.message(),
        "cgroup freeze poll interval must be positive"
    );
    assert_eq!(
        LinuxLifecycleError::FreezeTimeout.message(),
        "cgroup did not reach frozen state before timeout"
    );
}

fn shown(arguments: &[CriuArgument]) -> String {
    arguments
        .iter()
        .map(|argument| match argument {
            CriuArgument::Word(word) => word.clone(),
            CriuArgument::ImagesDir => "<images>".to_owned(),
            CriuArgument::PidFile => "<pidfile>".to_owned(),
        })
        .collect::<Vec<_>>()
        .join(" ")
}

#[test]
fn criu_command_lines_are_exact() {
    assert_eq!(CriuController::default(), CriuController::new("criu"));
    assert_eq!(
        shown(&dump_arguments(4711)),
        "dump --tree 4711 --images-dir <images> --log-file dump.log"
    );
    assert_eq!(
        shown(&restore_arguments()),
        "restore --images-dir <images> --restore-detached --pidfile <pidfile> --log-file restore.log"
    );
}

#[test]
fn criu_outcomes_and_pidfiles() {
    assert_eq!(command_outcome(CriuOperation::Dump, true, Some(0)), Ok(()));
    let failed = command_outcome(CriuOperation::Restore, false, Some(-7)).unwrap_err();
    assert_eq!(
        failed.message(),
        "CRIU Restore failed with exit code Some(-7)"
    );
    assert_eq!(
        command_outcome(CriuOperation::Dump, false, None)
            .unwrap_err()
            .message(),
        "CRIU Dump failed with exit code None"
    );
    assert_eq!(parse_pid(" 4711\n"), Ok(4711));
    assert_eq!(parse_pid("4294967295"), Ok(u32::MAX));
    assert_eq!(
        parse_pid("4294967296"),
        Err(CriuLifecycleError::InvalidPidFile)
    );
    assert_eq!(parse_pid("-1"), Err(CriuLifecycleError::InvalidPidFile));
    assert_eq!(
        CriuLifecycleError::InvalidPidFile.message(),
        "CRIU restore pidfile is invalid"
    );
    assert_eq!(
        CriuLifecycleError::Io {
            message: "gone".to_owned()
        }
        .message(),
        "CRIU I/O failed: gone"
    );
}

#[test]
fn scope_derives_stable_lock_key() {
    let key = LifecycleLeaseScope::new("beamscale", "prod-us-east", "node-17", "tenant-42")
        .map(|scope| scope.lock_key());

    assert_eq!(
        key,
        Ok("process-lifecycle/beamscale/prod-us-east/node-17/tenant-42".to_owned())
    );
}

#[test]
fn path_separator_is_rejected_inside_segments() {
    let scope = LifecycleLeaseScope::new("scintilla-run", "prod", "node/escape", "worker-1");

    assert_eq!(
        scope,
        Err(LifecycleLeaseScopeError::InvalidSegment { field: "node" })
    );
}

#[test]
fn long_segment_is_rejected_before_lock_key_construction() {
    let workload = "w".repeat(MAX_SEGMENT_BYTES + 1);
    let scope = LifecycleLeaseScope::new("beamscale", "prod", "node-1", &workload);

    assert_eq!(
        scope,
        Err(LifecycleLeaseScopeError::InvalidSegment { field: "workload" })
    );
}

#[test]
fn scopes_that_differ_have_keys_that_differ() {
    let one = LifecycleLeaseScope::new("a", "b", "c", "d.e").unwrap();
    let two = LifecycleLeaseScope::new("a", "b", "c.d", "e").unwrap();
    assert_ne!(one.lock_key(), two.lock_key());
    assert!(LifecycleLeaseScope::new("", "b", "c", "d").is_err());
    assert!(LifecycleLeaseScope::new("a", "b:1", "c_2", &"w".repeat(MAX_SEGMENT_BYTES)).is_ok());
}

#[test]
fn lease_errors_and_grants_say_what_they_hold() {
    assert_eq!(
        LifecycleLeaseScopeError::InvalidSegment { field: "node" }.message(),
        "invalid process lifecycle lease node segment"
    );
    assert_eq!(
        LifecycleLeaseScopeError::LockKeyTooLong.message(),
        "process lifecycle lease key is too long"
    );
    let grant = FencedLifecycleGrant {
        token: 9,
        owner: "host-a".to_owned(),
        expires_ms: Some(5),
    };
    assert_eq!(grant.fencing_token(), 9);
    assert_eq!(grant.holder(), "host-a");
    assert_eq!(grant.lease_expires_ms(), Some(5));
}
