use ores_otel_sidecar::apm::{
    assemble, escape_label, filesystem_target, prometheus_text, render_prometheus,
    unsupported_metrics, FilesystemReading, FilesystemResourceSnapshot, FilesystemUsage,
    ProcessReading, ProcessResourceSnapshot, ResourceSnapshot, RoundedGauges,
};

fn rounded() -> RoundedGauges {
    RoundedGauges {
        total_bytes: "10000".into(),
        used_bytes: "4000".into(),
        available_bytes: "6000".into(),
    }
}

fn fixture() -> ResourceSnapshot {
    ResourceSnapshot {
        process: ProcessResourceSnapshot {
            cpu_time_seconds: 12.5.to_string(),
            cpu_utilization_ratio: Some(0.25.to_string()),
            cpu_sample_warmed: true,
            memory_usage_bytes: 256,
            memory_virtual_bytes: 1024,
            disk_read_bytes: 2048,
            disk_write_bytes: 4096,
            uptime_seconds: 60,
        },
        filesystems: vec![FilesystemResourceSnapshot {
            target: "fs0".into(),
            total_bytes: 10_000,
            used_bytes: 4_000,
            available_bytes: 6_000,
            rounded: rounded(),
            utilization_ratio: 0.4.to_string(),
            read_only: false,
        }],
    }
}

#[test]
fn prometheus_projection_contains_resource_signals_without_paths() {
    let output = render_prometheus("service-a", &fixture());
    for metric in [
        "ores_otel_process_cpu_time_seconds",
        "ores_otel_process_memory_usage_bytes",
        "ores_otel_process_disk_read_bytes_total",
        "ores_otel_filesystem_available_bytes",
        "ores_otel_filesystem_utilization_ratio",
    ] {
        assert!(output.contains(metric), "missing {metric}: {output}");
    }
    assert!(output.contains("target=\"fs0\""));
    assert!(!output.contains("/var/"));
    assert!(!output.contains("/home/"));
}

#[test]
fn prometheus_labels_are_escaped() {
    let output = render_prometheus("svc\"\\\n", &fixture());
    assert!(output.contains("service=\"svc\\\"\\\\\\n\""));
}

#[test]
fn the_whole_projection_is_exact() {
    let expected = "\
# HELP ores_otel_resource_collector_supported Whether portable process/filesystem collection is supported.
# TYPE ores_otel_resource_collector_supported gauge
ores_otel_resource_collector_supported 1
# HELP ores_otel_process_cpu_time_seconds Total accumulated process CPU time.
# TYPE ores_otel_process_cpu_time_seconds counter
ores_otel_process_cpu_time_seconds{service=\"a\"} 12.5
# HELP ores_otel_process_cpu_sample_warmed Whether process CPU utilization has a prior sample.
# TYPE ores_otel_process_cpu_sample_warmed gauge
ores_otel_process_cpu_sample_warmed{service=\"a\"} 1
# HELP ores_otel_process_cpu_utilization_ratio Process CPU utilization normalized to logical CPU capacity.
# TYPE ores_otel_process_cpu_utilization_ratio gauge
ores_otel_process_cpu_utilization_ratio{service=\"a\"} 0.25
# HELP ores_otel_process_memory_usage_bytes Resident process memory usage in bytes.
# TYPE ores_otel_process_memory_usage_bytes gauge
ores_otel_process_memory_usage_bytes{service=\"a\"} 256
# HELP ores_otel_process_memory_virtual_bytes Virtual process memory usage in bytes.
# TYPE ores_otel_process_memory_virtual_bytes gauge
ores_otel_process_memory_virtual_bytes{service=\"a\"} 1024
# HELP ores_otel_process_disk_read_bytes_total Cumulative bytes read by the process. On Windows this may include non-disk I/O.
# TYPE ores_otel_process_disk_read_bytes_total counter
ores_otel_process_disk_read_bytes_total{service=\"a\"} 2048
# HELP ores_otel_process_disk_write_bytes_total Cumulative bytes written by the process. On Windows this may include non-disk I/O.
# TYPE ores_otel_process_disk_write_bytes_total counter
ores_otel_process_disk_write_bytes_total{service=\"a\"} 4096
# HELP ores_otel_process_uptime_seconds Process uptime in seconds.
# TYPE ores_otel_process_uptime_seconds gauge
ores_otel_process_uptime_seconds{service=\"a\"} 60
# HELP ores_otel_filesystem_total_bytes Filesystem total capacity in bytes.
# TYPE ores_otel_filesystem_total_bytes gauge
ores_otel_filesystem_total_bytes{service=\"a\",target=\"fs0\"} 10000
# HELP ores_otel_filesystem_used_bytes Filesystem used capacity in bytes.
# TYPE ores_otel_filesystem_used_bytes gauge
ores_otel_filesystem_used_bytes{service=\"a\",target=\"fs0\"} 4000
# HELP ores_otel_filesystem_available_bytes Filesystem space available to the current process in bytes.
# TYPE ores_otel_filesystem_available_bytes gauge
ores_otel_filesystem_available_bytes{service=\"a\",target=\"fs0\"} 6000
# HELP ores_otel_filesystem_utilization_ratio Filesystem utilization ratio.
# TYPE ores_otel_filesystem_utilization_ratio gauge
ores_otel_filesystem_utilization_ratio{service=\"a\",target=\"fs0\"} 0.4
# HELP ores_otel_filesystem_read_only Whether the filesystem is read-only.
# TYPE ores_otel_filesystem_read_only gauge
ores_otel_filesystem_read_only{service=\"a\",target=\"fs0\"} 0
";
    assert_eq!(render_prometheus("a", &fixture()), expected);
    assert_eq!(prometheus_text("a", &Some(fixture())), expected);
}

#[test]
fn a_collector_that_finds_nothing_says_so() {
    let text = unsupported_metrics();
    assert_eq!(prometheus_text("a", &None), text);
    assert_eq!(
        text,
        "# HELP ores_otel_resource_collector_supported Whether portable process/filesystem collection is supported.\n# TYPE ores_otel_resource_collector_supported gauge\nores_otel_resource_collector_supported 0\n"
    );
}

#[test]
fn usage_never_exceeds_the_total() {
    assert_eq!(
        FilesystemUsage::of(10, 4),
        FilesystemUsage {
            total: 10,
            used: 6,
            available: 4
        }
    );
    assert_eq!(
        FilesystemUsage::of(10, 40),
        FilesystemUsage {
            total: 10,
            used: 0,
            available: 10
        }
    );
    assert_eq!(
        FilesystemUsage::of(0, 0),
        FilesystemUsage {
            total: 0,
            used: 0,
            available: 0
        }
    );
}

#[test]
fn large_counts_are_shown_as_floating_point_numbers() {
    let mut snapshot = fixture();
    let total: u64 = u64::MAX;
    snapshot.filesystems[0].total_bytes = total;
    snapshot.filesystems[0].rounded.total_bytes = (total as f64).to_string();
    snapshot.filesystems[0].used_bytes = 9_007_199_254_740_992;
    snapshot.filesystems[0].rounded.used_bytes = (9_007_199_254_740_992u64 as f64).to_string();
    let output = render_prometheus("a", &snapshot);
    assert!(output.contains(&format!("target=\"fs0\"}} {}\n", total as f64)));
    assert!(output.contains("target=\"fs0\"} 9007199254740992\n"));
    assert_eq!(
        (9_007_199_254_740_992u64 as f64).to_string(),
        9_007_199_254_740_992u64.to_string()
    );
}

#[test]
fn readings_are_labelled_by_their_place() {
    let reading = |read_only: bool| FilesystemReading {
        usage: FilesystemUsage::of(10, 4),
        rounded: rounded(),
        utilization_ratio: "0.6".into(),
        read_only,
    };
    let process = || ProcessReading {
        cpu_time_seconds: "1".into(),
        cpu_utilization_ratio: "0.5".into(),
        memory_usage_bytes: 1,
        memory_virtual_bytes: 2,
        disk_read_bytes: 3,
        disk_write_bytes: 4,
        uptime_seconds: 5,
    };
    let cold = assemble(process(), false, vec![reading(false), reading(true)]);
    assert_eq!(cold.process.cpu_utilization_ratio, None);
    assert!(!cold.process.cpu_sample_warmed);
    assert_eq!(cold.filesystems[0].target, "fs0");
    assert_eq!(cold.filesystems[1].target, "fs1");
    assert!(cold.filesystems[1].read_only);
    assert_eq!(cold.filesystems[1].used_bytes, 6);
    let warm = assemble(process(), true, Vec::new());
    assert_eq!(warm.process.cpu_utilization_ratio.as_deref(), Some("0.5"));
    assert_eq!(warm.process.uptime_seconds, 5);
    assert_eq!(filesystem_target(12), "fs12");
    assert_eq!(escape_label("a\\n\n\""), "a\\\\n\\n\\\"");
}
