//! Process and filesystem resources of a sidecar, and their metrics text.
//!
//! Filesystems carry logical labels (`fs0`, `fs1`, …) instead of mount paths, so that
//! measurements can be exported without leaking host or container layout.
//! Runtime-specific heap/GC/event-loop metrics remain the responsibility of language
//! adapters.
//!
//! Ratios and times that are measured as floating-point numbers come as their
//! decimal text.

use crate::text::{append_text, chars_of, contains_text, decimal, decimal_text, law_contains};
use vstd::prelude::*;

verus! {

/// The largest byte count up to which every count is also a floating-point number.
pub const MAX_EXACT_GAUGE: u64 = 9_007_199_254_740_992;

#[derive(Clone, Debug, PartialEq, Eq)]
pub struct ProcessResourceSnapshot {
    pub cpu_time_seconds: String,
    pub cpu_utilization_ratio: Option<String>,
    pub cpu_sample_warmed: bool,
    pub memory_usage_bytes: u64,
    pub memory_virtual_bytes: u64,
    pub disk_read_bytes: u64,
    pub disk_write_bytes: u64,
    pub uptime_seconds: u64,
}

/// The texts of byte counts as the nearest floating-point numbers. They are used where
/// a count is too large to be one itself.
#[derive(Clone, Debug, PartialEq, Eq)]
pub struct RoundedGauges {
    pub total_bytes: String,
    pub used_bytes: String,
    pub available_bytes: String,
}

#[derive(Clone, Debug, PartialEq, Eq)]
pub struct FilesystemResourceSnapshot {
    /// Stable only within one scrape result. Never a raw path or device name.
    pub target: String,
    pub total_bytes: u64,
    pub used_bytes: u64,
    pub available_bytes: u64,
    pub rounded: RoundedGauges,
    pub utilization_ratio: String,
    pub read_only: bool,
}

#[derive(Clone, Debug, PartialEq, Eq)]
pub struct ResourceSnapshot {
    pub process: ProcessResourceSnapshot,
    pub filesystems: Vec<FilesystemResourceSnapshot>,
}

/// How the space of one filesystem is used.
#[derive(Clone, Copy, Debug, PartialEq, Eq, Structural)]
pub struct FilesystemUsage {
    pub total: u64,
    pub used: u64,
    pub available: u64,
}

impl FilesystemUsage {
    /// The usage of `total` bytes of which `available` are reported free. No more can be
    /// free than there is.
    pub fn of(total: u64, available: u64) -> (usage: Self)
        ensures
            usage.total == total,
            usage.available == (if available < total {
                available
            } else {
                total
            }),
            usage.used + usage.available == total,
    {
        let available = if available < total {
            available
        } else {
            total
        };
        FilesystemUsage { total, used: total - available, available }
    }
}

/// The logical label of the filesystem with `index`.
pub open spec fn target_label(index: nat) -> Seq<char> {
    "fs"@ + decimal(index)
}

pub fn filesystem_target(index: usize) -> (target: String)
    ensures
        target@ == target_label(index as nat),
{
    append_text("fs".to_owned(), decimal_text(index as u64).as_str())
}

/// What is measured of one filesystem.
#[derive(Debug, PartialEq, Eq)]
pub struct FilesystemReading {
    pub usage: FilesystemUsage,
    pub rounded: RoundedGauges,
    pub utilization_ratio: String,
    pub read_only: bool,
}

/// What is measured of the process. The utilization of a first sample means nothing.
#[derive(Debug, PartialEq, Eq)]
pub struct ProcessReading {
    pub cpu_time_seconds: String,
    pub cpu_utilization_ratio: String,
    pub memory_usage_bytes: u64,
    pub memory_virtual_bytes: u64,
    pub disk_read_bytes: u64,
    pub disk_write_bytes: u64,
    pub uptime_seconds: u64,
}

/// `snapshot` is `reading` under the label of its place.
pub open spec fn labels_reading(
    snapshot: FilesystemResourceSnapshot,
    reading: FilesystemReading,
    index: nat,
) -> bool {
    &&& snapshot.target@ == target_label(index)
    &&& snapshot.total_bytes == reading.usage.total
    &&& snapshot.used_bytes == reading.usage.used
    &&& snapshot.available_bytes == reading.usage.available
    &&& snapshot.rounded == reading.rounded
    &&& snapshot.utilization_ratio == reading.utilization_ratio
    &&& snapshot.read_only == reading.read_only
}

/// Put the readings of one scrape together. `warmed` says whether there was a sample
/// before this one; the filesystems come in the order of their mount points.
pub fn assemble(
    process: ProcessReading,
    warmed: bool,
    filesystems: Vec<FilesystemReading>,
) -> (snapshot: ResourceSnapshot)
    ensures
        snapshot.process == (ProcessResourceSnapshot {
            cpu_time_seconds: process.cpu_time_seconds,
            cpu_utilization_ratio: if warmed {
                Some(process.cpu_utilization_ratio)
            } else {
                None
            },
            cpu_sample_warmed: warmed,
            memory_usage_bytes: process.memory_usage_bytes,
            memory_virtual_bytes: process.memory_virtual_bytes,
            disk_read_bytes: process.disk_read_bytes,
            disk_write_bytes: process.disk_write_bytes,
            uptime_seconds: process.uptime_seconds,
        }),
        snapshot.filesystems@.len() == filesystems@.len(),
        forall|i: int|
            0 <= i < filesystems@.len() ==> labels_reading(
                #[trigger] snapshot.filesystems@[i],
                filesystems@[i],
                i as nat,
            ),
{
    let mut labelled: Vec<FilesystemResourceSnapshot> = Vec::new();
    let ghost readings = filesystems@;
    for reading in it: filesystems
        invariant
            it.seq() == readings,
            labelled@.len() == it.index(),
            forall|i: int|
                0 <= i < labelled@.len() ==> labels_reading(
                    #[trigger] labelled@[i],
                    readings[i],
                    i as nat,
                ),
    {
        let target = filesystem_target(labelled.len());
        labelled.push(
            FilesystemResourceSnapshot {
                target,
                total_bytes: reading.usage.total,
                used_bytes: reading.usage.used,
                available_bytes: reading.usage.available,
                rounded: reading.rounded,
                utilization_ratio: reading.utilization_ratio,
                read_only: reading.read_only,
            },
        );
    }
    let cpu_utilization_ratio = if warmed {
        Some(process.cpu_utilization_ratio)
    } else {
        None
    };
    ResourceSnapshot {
        process: ProcessResourceSnapshot {
            cpu_time_seconds: process.cpu_time_seconds,
            cpu_utilization_ratio,
            cpu_sample_warmed: warmed,
            memory_usage_bytes: process.memory_usage_bytes,
            memory_virtual_bytes: process.memory_virtual_bytes,
            disk_read_bytes: process.disk_read_bytes,
            disk_write_bytes: process.disk_write_bytes,
            uptime_seconds: process.uptime_seconds,
        },
        filesystems: labelled,
    }
}

/// How a character is written inside a label value.
pub open spec fn escaped_char(c: char) -> Seq<char> {
    if c == '\\' {
        seq!['\\', '\\']
    } else if c == '"' {
        seq!['\\', '"']
    } else if c == '\n' {
        seq!['\\', 'n']
    } else {
        seq![c]
    }
}

/// How a text is written inside a label value.
pub open spec fn escaped(value: Seq<char>) -> Seq<char>
    decreases value.len(),
{
    if value.len() == 0 {
        Seq::empty()
    } else {
        escaped(value.drop_last()) + escaped_char(value.last())
    }
}

/// What a written label value stands for.
pub open spec fn unescaped(text: Seq<char>) -> Seq<char>
    decreases text.len(),
{
    if text.len() == 0 {
        Seq::empty()
    } else if text[0] == '\\' && text.len() > 1 {
        seq![
            if text[1] == 'n' {
                '\n'
            } else {
                text[1]
            },
        ] + unescaped(text.skip(2))
    } else {
        seq![text[0]] + unescaped(text.skip(1))
    }
}

pub fn escape_label(value: &str) -> (text: String)
    ensures
        text@ == escaped(value@),
{
    let chars = chars_of(value);
    let mut text = String::new();
    let mut i: usize = 0;
    assert(chars@.take(0) =~= Seq::<char>::empty());
    while i < chars.len()
        invariant
            chars@ == value@,
            i <= chars@.len(),
            text@ == escaped(chars@.take(i as int)),
        decreases chars@.len() - i,
    {
        let c = chars[i];
        proof {
            assert(chars@.take(i + 1).drop_last() =~= chars@.take(i as int));
        }
        let ghost before = text@;
        if c == '\\' {
            text.push('\\');
            text.push('\\');
        } else if c == '"' {
            text.push('\\');
            text.push('"');
        } else if c == '\n' {
            text.push('\\');
            text.push('n');
        } else {
            text.push(c);
        }
        assert(text@ =~= before + escaped_char(c));
        i = i + 1;
    }
    assert(chars@.take(chars@.len() as int) =~= chars@);
    text
}

/// The two comment lines that introduce a metric.
pub open spec fn metric_head(name: Seq<char>, help: Seq<char>, kind: Seq<char>) -> Seq<char> {
    "# HELP "@ + name + " "@ + help + "\n# TYPE "@ + name + " "@ + kind + "\n"@
}

/// One sample of a metric of the process.
pub open spec fn sample(name: Seq<char>, service: Seq<char>, value: Seq<char>) -> Seq<char> {
    name + "{service=\""@ + service + "\"} "@ + value + "\n"@
}

/// One sample of a metric of a filesystem.
pub open spec fn target_sample(
    name: Seq<char>,
    service: Seq<char>,
    target: Seq<char>,
    value: Seq<char>,
) -> Seq<char> {
    name + "{service=\""@ + service + "\",target=\""@ + target + "\"} "@ + value + "\n"@
}

fn push_head(out: String, name: &str, help: &str, kind: &str) -> (text: String)
    ensures
        text@ == out@ + metric_head(name@, help@, kind@),
{
    let head = append_text("# HELP ".to_owned(), name);
    let head = append_text(head, " ");
    let head = append_text(head, help);
    let head = append_text(head, "\n# TYPE ");
    let head = append_text(head, name);
    let head = append_text(head, " ");
    let head = append_text(head, kind);
    let head = append_text(head, "\n");
    append_text(out, head.as_str())
}

fn push_sample(out: String, name: &str, service: &str, value: &str) -> (text: String)
    ensures
        text@ == out@ + sample(name@, service@, value@),
{
    let line = append_text(name.to_owned(), "{service=\"");
    let line = append_text(line, service);
    let line = append_text(line, "\"} ");
    let line = append_text(line, value);
    let line = append_text(line, "\n");
    append_text(out, line.as_str())
}

/// A metric of the process that is a whole number.
pub open spec fn u64_metric(
    name: Seq<char>,
    help: Seq<char>,
    kind: Seq<char>,
    service: Seq<char>,
    value: u64,
) -> Seq<char> {
    metric_head(name, help, kind) + sample(name, service, decimal(value as nat))
}

fn push_u64_metric(
    out: String,
    name: &str,
    help: &str,
    kind: &str,
    service: &str,
    value: u64,
) -> (text: String)
    ensures
        text@ == out@ + u64_metric(name@, help@, kind@, service@, value),
{
    let ghost before = out@;
    let out = push_head(out, name, help, kind);
    let out = push_sample(out, name, service, decimal_text(value).as_str());
    assert(out@ =~= before + u64_metric(name@, help@, kind@, service@, value));
    out
}

/// A gauge of a filesystem.
pub open spec fn filesystem_metric(
    name: Seq<char>,
    help: Seq<char>,
    service: Seq<char>,
    target: Seq<char>,
    value: Seq<char>,
) -> Seq<char> {
    metric_head(name, help, "gauge"@) + target_sample(name, service, target, value)
}

fn push_filesystem_metric(
    out: String,
    name: &str,
    help: &str,
    service: &str,
    target: &str,
    value: &str,
) -> (text: String)
    ensures
        text@ == out@ + filesystem_metric(name@, help@, service@, target@, value@),
{
    let ghost before = out@;
    let out = push_head(out, name, help, "gauge");
    let line = append_text(name.to_owned(), "{service=\"");
    let line = append_text(line, service);
    let line = append_text(line, "\",target=\"");
    let line = append_text(line, target);
    let line = append_text(line, "\"} ");
    let line = append_text(line, value);
    let line = append_text(line, "\n");
    let out = append_text(out, line.as_str());
    assert(out@ =~= before + filesystem_metric(name@, help@, service@, target@, value@));
    out
}

/// The text of a byte count as a gauge.
pub open spec fn byte_gauge(count: u64, rounded: Seq<char>) -> Seq<char> {
    if count <= MAX_EXACT_GAUGE {
        decimal(count as nat)
    } else {
        rounded
    }
}

fn byte_gauge_text(count: u64, rounded: &String) -> (text: String)
    ensures
        text@ == byte_gauge(count, rounded@),
{
    if count <= MAX_EXACT_GAUGE {
        decimal_text(count)
    } else {
        rounded.clone()
    }
}

fn flag_gauge(flag: bool) -> (text: &'static str)
    ensures
        text@ == flag_digit(flag),
{
    if flag {
        "1"
    } else {
        "0"
    }
}

/// A flag as a gauge.
pub open spec fn flag_digit(flag: bool) -> Seq<char> {
    if flag {
        "1"@
    } else {
        "0"@
    }
}

/// Whether resources are collected at all.
pub open spec fn support_metric(supported: bool) -> Seq<char> {
    "# HELP ores_otel_resource_collector_supported Whether portable process/filesystem collection is supported.\n"@
        + "# TYPE ores_otel_resource_collector_supported gauge\n"@
        + "ores_otel_resource_collector_supported "@ + flag_digit(supported) + "\n"@
}

fn support_text(supported: bool) -> (text: String)
    ensures
        text@ == support_metric(supported),
{
    let text =
        "# HELP ores_otel_resource_collector_supported Whether portable process/filesystem collection is supported.\n".to_owned();
    let text = append_text(text, "# TYPE ores_otel_resource_collector_supported gauge\n");
    let text = append_text(text, "ores_otel_resource_collector_supported ");
    let text = append_text(text, flag_gauge(supported));
    append_text(text, "\n")
}

/// The metrics of a sidecar that cannot collect resources.
pub fn unsupported_metrics() -> (text: String)
    ensures
        text@ == support_metric(false),
{
    support_text(false)
}

/// The CPU metrics of the process. Utilization is there only from the second sample on.
pub open spec fn cpu_metrics(service: Seq<char>, process: ProcessResourceSnapshot) -> Seq<char> {
    metric_head(
        "ores_otel_process_cpu_time_seconds"@,
        "Total accumulated process CPU time."@,
        "counter"@,
    ) + sample("ores_otel_process_cpu_time_seconds"@, service, process.cpu_time_seconds@)
        + metric_head(
        "ores_otel_process_cpu_sample_warmed"@,
        "Whether process CPU utilization has a prior sample."@,
        "gauge"@,
    ) + sample(
        "ores_otel_process_cpu_sample_warmed"@,
        service,
        flag_digit(process.cpu_sample_warmed),
    ) + (match process.cpu_utilization_ratio {
        Some(cpu) => metric_head(
            "ores_otel_process_cpu_utilization_ratio"@,
            "Process CPU utilization normalized to logical CPU capacity."@,
            "gauge"@,
        ) + sample("ores_otel_process_cpu_utilization_ratio"@, service, cpu@),
        None => Seq::empty(),
    })
}

fn cpu_text(service: &str, process: &ProcessResourceSnapshot) -> (text: String)
    ensures
        text@ == cpu_metrics(service@, *process),
{
    let out = push_head(
        String::new(),
        "ores_otel_process_cpu_time_seconds",
        "Total accumulated process CPU time.",
        "counter",
    );
    let out = push_sample(
        out,
        "ores_otel_process_cpu_time_seconds",
        service,
        process.cpu_time_seconds.as_str(),
    );
    let out = push_head(
        out,
        "ores_otel_process_cpu_sample_warmed",
        "Whether process CPU utilization has a prior sample.",
        "gauge",
    );
    let out = push_sample(
        out,
        "ores_otel_process_cpu_sample_warmed",
        service,
        flag_gauge(process.cpu_sample_warmed),
    );
    let out = match &process.cpu_utilization_ratio {
        Some(cpu) => {
            let out = push_head(
                out,
                "ores_otel_process_cpu_utilization_ratio",
                "Process CPU utilization normalized to logical CPU capacity.",
                "gauge",
            );
            push_sample(out, "ores_otel_process_cpu_utilization_ratio", service, cpu.as_str())
        },
        None => out,
    };
    assert(out@ =~= cpu_metrics(service@, *process));
    out
}

/// The memory, disk and uptime metrics of the process.
pub open spec fn process_metrics(
    service: Seq<char>,
    process: ProcessResourceSnapshot,
) -> Seq<char> {
    u64_metric(
        "ores_otel_process_memory_usage_bytes"@,
        "Resident process memory usage in bytes."@,
        "gauge"@,
        service,
        process.memory_usage_bytes,
    ) + u64_metric(
        "ores_otel_process_memory_virtual_bytes"@,
        "Virtual process memory usage in bytes."@,
        "gauge"@,
        service,
        process.memory_virtual_bytes,
    ) + u64_metric(
        "ores_otel_process_disk_read_bytes_total"@,
        "Cumulative bytes read by the process. On Windows this may include non-disk I/O."@,
        "counter"@,
        service,
        process.disk_read_bytes,
    ) + u64_metric(
        "ores_otel_process_disk_write_bytes_total"@,
        "Cumulative bytes written by the process. On Windows this may include non-disk I/O."@,
        "counter"@,
        service,
        process.disk_write_bytes,
    ) + u64_metric(
        "ores_otel_process_uptime_seconds"@,
        "Process uptime in seconds."@,
        "gauge"@,
        service,
        process.uptime_seconds,
    )
}

fn process_text(service: &str, process: &ProcessResourceSnapshot) -> (text: String)
    ensures
        text@ == process_metrics(service@, *process),
{
    let out = push_u64_metric(
        String::new(),
        "ores_otel_process_memory_usage_bytes",
        "Resident process memory usage in bytes.",
        "gauge",
        service,
        process.memory_usage_bytes,
    );
    let out = push_u64_metric(
        out,
        "ores_otel_process_memory_virtual_bytes",
        "Virtual process memory usage in bytes.",
        "gauge",
        service,
        process.memory_virtual_bytes,
    );
    let out = push_u64_metric(
        out,
        "ores_otel_process_disk_read_bytes_total",
        "Cumulative bytes read by the process. On Windows this may include non-disk I/O.",
        "counter",
        service,
        process.disk_read_bytes,
    );
    let out = push_u64_metric(
        out,
        "ores_otel_process_disk_write_bytes_total",
        "Cumulative bytes written by the process. On Windows this may include non-disk I/O.",
        "counter",
        service,
        process.disk_write_bytes,
    );
    let out = push_u64_metric(
        out,
        "ores_otel_process_uptime_seconds",
        "Process uptime in seconds.",
        "gauge",
        service,
        process.uptime_seconds,
    );
    assert(out@ =~= process_metrics(service@, *process));
    out
}

/// The metrics of one filesystem, under its escaped label.
pub open spec fn filesystem_metrics(
    service: Seq<char>,
    filesystem: FilesystemResourceSnapshot,
) -> Seq<char> {
    let target = escaped(filesystem.target@);
    filesystem_metric(
        "ores_otel_filesystem_total_bytes"@,
        "Filesystem total capacity in bytes."@,
        service,
        target,
        byte_gauge(filesystem.total_bytes, filesystem.rounded.total_bytes@),
    ) + filesystem_metric(
        "ores_otel_filesystem_used_bytes"@,
        "Filesystem used capacity in bytes."@,
        service,
        target,
        byte_gauge(filesystem.used_bytes, filesystem.rounded.used_bytes@),
    ) + filesystem_metric(
        "ores_otel_filesystem_available_bytes"@,
        "Filesystem space available to the current process in bytes."@,
        service,
        target,
        byte_gauge(filesystem.available_bytes, filesystem.rounded.available_bytes@),
    ) + filesystem_metric(
        "ores_otel_filesystem_utilization_ratio"@,
        "Filesystem utilization ratio."@,
        service,
        target,
        filesystem.utilization_ratio@,
    ) + filesystem_metric(
        "ores_otel_filesystem_read_only"@,
        "Whether the filesystem is read-only."@,
        service,
        target,
        flag_digit(filesystem.read_only),
    )
}

fn filesystem_text(service: &str, filesystem: &FilesystemResourceSnapshot) -> (text: String)
    ensures
        text@ == filesystem_metrics(service@, *filesystem),
{
    let target = escape_label(filesystem.target.as_str());
    let out = push_filesystem_metric(
        String::new(),
        "ores_otel_filesystem_total_bytes",
        "Filesystem total capacity in bytes.",
        service,
        target.as_str(),
        byte_gauge_text(filesystem.total_bytes, &filesystem.rounded.total_bytes).as_str(),
    );
    let out = push_filesystem_metric(
        out,
        "ores_otel_filesystem_used_bytes",
        "Filesystem used capacity in bytes.",
        service,
        target.as_str(),
        byte_gauge_text(filesystem.used_bytes, &filesystem.rounded.used_bytes).as_str(),
    );
    let out = push_filesystem_metric(
        out,
        "ores_otel_filesystem_available_bytes",
        "Filesystem space available to the current process in bytes.",
        service,
        target.as_str(),
        byte_gauge_text(filesystem.available_bytes, &filesystem.rounded.available_bytes).as_str(),
    );
    let out = push_filesystem_metric(
        out,
        "ores_otel_filesystem_utilization_ratio",
        "Filesystem utilization ratio.",
        service,
        target.as_str(),
        filesystem.utilization_ratio.as_str(),
    );
    let out = push_filesystem_metric(
        out,
        "ores_otel_filesystem_read_only",
        "Whether the filesystem is read-only.",
        service,
        target.as_str(),
        flag_gauge(filesystem.read_only),
    );
    assert(out@ =~= filesystem_metrics(service@, *filesystem));
    out
}

/// The metrics of some filesystems, one after the other.
pub open spec fn filesystems_metrics(
    service: Seq<char>,
    filesystems: Seq<FilesystemResourceSnapshot>,
) -> Seq<char>
    decreases filesystems.len(),
{
    if filesystems.len() == 0 {
        Seq::empty()
    } else {
        filesystems_metrics(service, filesystems.drop_last()) + filesystem_metrics(
            service,
            filesystems.last(),
        )
    }
}

/// The metrics of a snapshot, under the escaped name of the service.
pub open spec fn prometheus(service: Seq<char>, snapshot: ResourceSnapshot) -> Seq<char> {
    support_metric(true) + cpu_metrics(escaped(service), snapshot.process) + process_metrics(
        escaped(service),
        snapshot.process,
    ) + filesystems_metrics(escaped(service), snapshot.filesystems@)
}

/// Render a bounded Prometheus/OpenMetrics-compatible text projection.
pub fn render_prometheus(service: &str, snapshot: &ResourceSnapshot) -> (text: String)
    ensures
        text@ == prometheus(service@, *snapshot),
{
    let service_label = escape_label(service);
    let out = support_text(true);
    let cpu = cpu_text(service_label.as_str(), &snapshot.process);
    let out = append_text(out, cpu.as_str());
    let process = process_text(service_label.as_str(), &snapshot.process);
    let mut out = append_text(out, process.as_str());
    let ghost head = out@;
    let mut i: usize = 0;
    assert(snapshot.filesystems@.take(0) =~= Seq::<FilesystemResourceSnapshot>::empty());
    assert(head + Seq::<char>::empty() =~= head);
    while i < snapshot.filesystems.len()
        invariant
            i <= snapshot.filesystems@.len(),
            service_label@ == escaped(service@),
            out@ == head + filesystems_metrics(
                escaped(service@),
                snapshot.filesystems@.take(i as int),
            ),
        decreases snapshot.filesystems@.len() - i,
    {
        proof {
            let reached = snapshot.filesystems@.take(i + 1);
            assert(reached.drop_last() =~= snapshot.filesystems@.take(i as int));
            let passed = filesystems_metrics(escaped(service@), reached.drop_last());
            let last = filesystem_metrics(escaped(service@), reached.last());
            assert(head + (passed + last) =~= head + passed + last);
        }
        let filesystem = filesystem_text(service_label.as_str(), &snapshot.filesystems[i]);
        out = append_text(out, filesystem.as_str());
        i = i + 1;
    }
    assert(snapshot.filesystems@.take(snapshot.filesystems@.len() as int)
        =~= snapshot.filesystems@);
    out
}

/// The resource metrics of a scrape: those of the snapshot, or that there is none.
pub open spec fn resource_metrics(
    service: Seq<char>,
    snapshot: Option<ResourceSnapshot>,
) -> Seq<char> {
    match snapshot {
        Some(snapshot) => prometheus(service, snapshot),
        None => support_metric(false),
    }
}

/// Render what the collector found. A collector that cannot serve finds nothing.
pub fn prometheus_text(service: &str, snapshot: &Option<ResourceSnapshot>) -> (text: String)
    ensures
        text@ == resource_metrics(service@, *snapshot),
{
    match snapshot {
        Some(snapshot) => render_prometheus(service, snapshot),
        None => unsupported_metrics(),
    }
}

proof fn lemma_escaped_front(c: char, rest: Seq<char>)
    ensures
        escaped(seq![c] + rest) == escaped_char(c) + escaped(rest),
    decreases rest.len(),
{
    let value = seq![c] + rest;
    if rest.len() == 0 {
        assert(value.drop_last() =~= Seq::<char>::empty());
        assert(value.last() == c);
        assert(escaped(value) =~= escaped_char(c) + escaped(rest)) by {
            reveal_with_fuel(escaped, 2);
        }
    } else {
        assert(value.drop_last() =~= seq![c] + rest.drop_last());
        lemma_escaped_front(c, rest.drop_last());
        assert(escaped(value) =~= escaped_char(c) + escaped(rest));
    }
}

/// A label value can be read back: escaping loses nothing, so two services or two
/// targets never share a label.
pub proof fn law_labels_read_back(value: Seq<char>)
    ensures
        unescaped(escaped(value)) == value,
    decreases value.len(),
{
    if value.len() > 0 {
        let c = value[0];
        let rest = value.skip(1);
        assert(value =~= seq![c] + rest);
        lemma_escaped_front(c, rest);
        law_labels_read_back(rest);
        let text = escaped(value);
        let width = escaped_char(c).len() as int;
        assert(text.skip(width) =~= escaped(rest));
        assert(text[0] == escaped_char(c)[0]);
        if width == 2 {
            assert(text[1] == escaped_char(c)[1]);
        }
        assert(unescaped(text) =~= value);
    }
}

/// A label value never ends its line.
pub proof fn law_labels_stay_on_their_line(value: Seq<char>)
    ensures
        !escaped(value).contains('\n'),
    decreases value.len(),
{
    if value.len() > 0 {
        law_labels_stay_on_their_line(value.drop_last());
        let init = escaped(value.drop_last());
        let last = escaped_char(value.last());
        assert forall|i: int| 0 <= i < escaped(value).len() implies escaped(value)[i] != '\n' by {
            if i < init.len() {
                assert(escaped(value)[i] == init[i]);
                assert(init.contains(init[i]));
            } else {
                assert(escaped(value)[i] == last[i - init.len()]);
            }
        }
    }
}

/// Escaping goes character by character: a backslash, a quotation mark and a line feed are
/// written with a backslash, and everything else as it is.
pub proof fn law_escaping_goes_by_character(a: Seq<char>, b: Seq<char>, c: char)
    ensures
        escaped(a + b) == escaped(a) + escaped(b),
        escaped(Seq::<char>::empty()).len() == 0,
        escaped(seq!['\\']) == seq!['\\', '\\'],
        escaped(seq!['"']) == seq!['\\', '"'],
        escaped(seq!['\n']) == seq!['\\', 'n'],
        c != '\\' && c != '"' && c != '\n' ==> escaped(seq![c]) == seq![c],
    decreases b.len(),
{
    lemma_escaped_one('\\');
    lemma_escaped_one('"');
    lemma_escaped_one('\n');
    lemma_escaped_one(c);
    if b.len() == 0 {
        assert(a + b =~= a);
        assert(escaped(a) + escaped(b) =~= escaped(a));
    } else {
        law_escaping_goes_by_character(a, b.drop_last(), c);
        assert((a + b).drop_last() =~= a + b.drop_last());
        assert(escaped(a + b) =~= escaped(a) + escaped(b));
    }
}

proof fn lemma_escaped_one(c: char)
    ensures
        escaped(seq![c]) == escaped_char(c),
{
    lemma_escaped_front(c, Seq::empty());
    assert(seq![c] + Seq::<char>::empty() =~= seq![c]);
    assert(escaped_char(c) + escaped(Seq::empty()) =~= escaped_char(c));
}

/// A byte count is shown as it is up to the largest one that every smaller one can be told
/// from as a floating-point number, and as the nearest such number above it.
pub proof fn law_byte_gauges(count: u64, rounded: Seq<char>)
    ensures
        count <= 9_007_199_254_740_992 ==> byte_gauge(count, rounded) == decimal(count as nat),
        count > 9_007_199_254_740_992 ==> byte_gauge(count, rounded) == rounded,
        flag_digit(true) == "1"@,
        flag_digit(false) == "0"@,
{
}

/// The label of a filesystem is its place in the scrape, and so tells every other filesystem
/// apart.
pub proof fn law_target_labels(i: nat, j: nat)
    ensures
        target_label(i) == "fs"@ + decimal(i),
        target_label(i) == target_label(j) ==> i == j,
{
    crate::text::law_decimal(i);
    crate::text::law_decimal(j);
    if target_label(i) == target_label(j) {
        assert(decimal(i) =~= target_label(i).skip("fs"@.len() as int));
        assert(decimal(j) =~= target_label(j).skip("fs"@.len() as int));
    }
}

proof fn lemma_stands_in_join(front: Seq<char>, text: Seq<char>, back: Seq<char>, part: Seq<char>)
    requires
        contains_text(text, part),
    ensures
        contains_text(front + text + back, part),
{
    law_contains(text, part, front, back);
    let i = choose|i: int|
        0 <= i <= text.len() - part.len() && #[trigger] text.subrange(i, i + part.len()) == part;
    let a = front + text.take(i);
    let b = text.skip(i + part.len()) + back;
    assert(front + text + back =~= a + part + b);
    law_contains(front, part, a, b);
}

/// The filesystems are rendered one after the other, none left out and none changed by the
/// others: the text of two lists in a row is their texts in a row.
pub proof fn law_filesystems_are_rendered_in_a_row(
    service: Seq<char>,
    a: Seq<FilesystemResourceSnapshot>,
    b: Seq<FilesystemResourceSnapshot>,
    one: FilesystemResourceSnapshot,
)
    ensures
        filesystems_metrics(service, a + b) == filesystems_metrics(service, a)
            + filesystems_metrics(service, b),
        filesystems_metrics(service, seq![one]) == filesystem_metrics(service, one),
        filesystems_metrics(service, Seq::empty()).len() == 0,
    decreases b.len(),
{
    let none = Seq::<FilesystemResourceSnapshot>::empty();
    assert(seq![one].drop_last() =~= none);
    assert(seq![one].last() == one);
    lemma_join(filesystems_metrics(service, none), filesystem_metrics(service, one), none_text());
    if b.len() == 0 {
        assert(a + b =~= a);
        lemma_join(filesystems_metrics(service, a), none_text(), none_text());
    } else {
        law_filesystems_are_rendered_in_a_row(service, a, b.drop_last(), one);
        assert((a + b).drop_last() =~= a + b.drop_last());
        lemma_join(
            filesystems_metrics(service, a),
            filesystems_metrics(service, b.drop_last()),
            filesystem_metrics(service, b.last()),
        );
    }
}

spec fn none_text() -> Seq<char> {
    Seq::empty()
}

/// Joining texts is associative, and joining nothing changes nothing.
proof fn lemma_join(a: Seq<char>, b: Seq<char>, c: Seq<char>)
    ensures
        (a + b) + c == a + (b + c),
        a + none_text() == a,
        none_text() + b == b,
{
    assert((a + b) + c =~= a + (b + c));
    assert(a + none_text() =~= a);
    assert(none_text() + b =~= b);
}

/// The filesystems come behind everything else, and what comes before them does not depend on
/// them.
pub proof fn law_filesystems_come_last(
    service: Seq<char>,
    snapshot: ResourceSnapshot,
    without: ResourceSnapshot,
)
    requires
        without.process == snapshot.process,
        without.filesystems@.len() == 0,
    ensures
        prometheus(service, snapshot) == prometheus(service, without) + filesystems_metrics(
            escaped(service),
            snapshot.filesystems@,
        ),
{
    assert(prometheus(service, snapshot) =~= prometheus(service, without) + filesystems_metrics(
        escaped(service),
        snapshot.filesystems@,
    ));
}

proof fn lemma_filesystem_stands(
    service: Seq<char>,
    filesystems: Seq<FilesystemResourceSnapshot>,
    i: int,
    part: Seq<char>,
)
    requires
        0 <= i < filesystems.len(),
        contains_text(filesystem_metrics(service, filesystems[i]), part),
    ensures
        contains_text(filesystems_metrics(service, filesystems), part),
{
    let front = filesystems.take(i);
    let one = filesystems[i];
    let back = filesystems.skip(i + 1);
    assert(filesystems =~= front + seq![one] + back);
    law_filesystems_are_rendered_in_a_row(service, front + seq![one], back, one);
    law_filesystems_are_rendered_in_a_row(service, front, seq![one], one);
    lemma_stands_in_join(
        filesystems_metrics(service, front),
        filesystem_metrics(service, one),
        filesystems_metrics(service, back),
        part,
    );
}

/// The text of a filesystem holds each of its five gauges, under the names of the service and
/// of the filesystem.
proof fn lemma_filesystem_gauges(service: Seq<char>, filesystem: FilesystemResourceSnapshot)
    ensures
        contains_text(
            filesystem_metrics(service, filesystem),
            "ores_otel_filesystem_total_bytes"@ + "{service=\""@ + service + "\",target=\""@ + escaped(
                filesystem.target@,
            ) + "\"} "@ + byte_gauge(filesystem.total_bytes, filesystem.rounded.total_bytes@) + "\n"@,
        ),
        contains_text(
            filesystem_metrics(service, filesystem),
            "ores_otel_filesystem_used_bytes"@ + "{service=\""@ + service + "\",target=\""@ + escaped(
                filesystem.target@,
            ) + "\"} "@ + byte_gauge(filesystem.used_bytes, filesystem.rounded.used_bytes@) + "\n"@,
        ),
        contains_text(
            filesystem_metrics(service, filesystem),
            "ores_otel_filesystem_available_bytes"@ + "{service=\""@ + service + "\",target=\""@ + escaped(
                filesystem.target@,
            ) + "\"} "@ + byte_gauge(filesystem.available_bytes, filesystem.rounded.available_bytes@) + "\n"@,
        ),
        contains_text(
            filesystem_metrics(service, filesystem),
            "ores_otel_filesystem_utilization_ratio"@ + "{service=\""@ + service + "\",target=\""@ + escaped(
                filesystem.target@,
            ) + "\"} "@ + filesystem.utilization_ratio@ + "\n"@,
        ),
        contains_text(
            filesystem_metrics(service, filesystem),
            "ores_otel_filesystem_read_only"@ + "{service=\""@ + service + "\",target=\""@ + escaped(
                filesystem.target@,
            ) + "\"} "@ + flag_digit(filesystem.read_only) + "\n"@,
        ),
{
    let target = escaped(filesystem.target@);
    let m0 = filesystem_metric(
        "ores_otel_filesystem_total_bytes"@,
        "Filesystem total capacity in bytes."@,
        service,
        target,
        byte_gauge(filesystem.total_bytes, filesystem.rounded.total_bytes@),
    );
    let m1 = filesystem_metric(
        "ores_otel_filesystem_used_bytes"@,
        "Filesystem used capacity in bytes."@,
        service,
        target,
        byte_gauge(filesystem.used_bytes, filesystem.rounded.used_bytes@),
    );
    let m2 = filesystem_metric(
        "ores_otel_filesystem_available_bytes"@,
        "Filesystem space available to the current process in bytes."@,
        service,
        target,
        byte_gauge(filesystem.available_bytes, filesystem.rounded.available_bytes@),
    );
    let m3 = filesystem_metric(
        "ores_otel_filesystem_utilization_ratio"@,
        "Filesystem utilization ratio."@,
        service,
        target,
        filesystem.utilization_ratio@,
    );
    let m4 = filesystem_metric(
        "ores_otel_filesystem_read_only"@,
        "Whether the filesystem is read-only."@,
        service,
        target,
        flag_digit(filesystem.read_only),
    );
    let s0 = target_sample(
        "ores_otel_filesystem_total_bytes"@,
        service,
        target,
        byte_gauge(filesystem.total_bytes, filesystem.rounded.total_bytes@),
    );
    let h0 = metric_head("ores_otel_filesystem_total_bytes"@, "Filesystem total capacity in bytes."@, "gauge"@);
    law_contains(service, s0, h0, Seq::empty());
    assert(h0 + s0 + Seq::<char>::empty() =~= m0);
    let s1 = target_sample(
        "ores_otel_filesystem_used_bytes"@,
        service,
        target,
        byte_gauge(filesystem.used_bytes, filesystem.rounded.used_bytes@),
    );
    let h1 = metric_head("ores_otel_filesystem_used_bytes"@, "Filesystem used capacity in bytes."@, "gauge"@);
    law_contains(service, s1, h1, Seq::empty());
    assert(h1 + s1 + Seq::<char>::empty() =~= m1);
    let s2 = target_sample(
        "ores_otel_filesystem_available_bytes"@,
        service,
        target,
        byte_gauge(filesystem.available_bytes, filesystem.rounded.available_bytes@),
    );
    let h2 = metric_head("ores_otel_filesystem_available_bytes"@, "Filesystem space available to the current process in bytes."@, "gauge"@);
    law_contains(service, s2, h2, Seq::empty());
    assert(h2 + s2 + Seq::<char>::empty() =~= m2);
    let s3 = target_sample(
        "ores_otel_filesystem_utilization_ratio"@,
        service,
        target,
        filesystem.utilization_ratio@,
    );
    let h3 = metric_head("ores_otel_filesystem_utilization_ratio"@, "Filesystem utilization ratio."@, "gauge"@);
    law_contains(service, s3, h3, Seq::empty());
    assert(h3 + s3 + Seq::<char>::empty() =~= m3);
    let s4 = target_sample(
        "ores_otel_filesystem_read_only"@,
        service,
        target,
        flag_digit(filesystem.read_only),
    );
    let h4 = metric_head("ores_otel_filesystem_read_only"@, "Whether the filesystem is read-only."@, "gauge"@);
    law_contains(service, s4, h4, Seq::empty());
    assert(h4 + s4 + Seq::<char>::empty() =~= m4);
    let none = Seq::<char>::empty();
    lemma_stands_in_join(none, m0, m1 + m2 + m3 + m4, s0);
    assert(none + m0 + (m1 + m2 + m3 + m4) =~= m0 + m1 + m2 + m3 + m4);
    lemma_stands_in_join(m0, m1, m2 + m3 + m4, s1);
    assert(m0 + m1 + (m2 + m3 + m4) =~= m0 + m1 + m2 + m3 + m4);
    lemma_stands_in_join(m0 + m1, m2, m3 + m4, s2);
    assert(m0 + m1 + m2 + (m3 + m4) =~= m0 + m1 + m2 + m3 + m4);
    lemma_stands_in_join(m0 + m1 + m2, m3, m4, s3);
    lemma_stands_in_join(m0 + m1 + m2 + m3, m4, none, s4);
    assert(m0 + m1 + m2 + m3 + m4 + none =~= m0 + m1 + m2 + m3 + m4);
}

proof fn lemma_filesystem_part_is_rendered(
    service: Seq<char>,
    snapshot: ResourceSnapshot,
    i: int,
    part: Seq<char>,
)
    requires
        0 <= i < snapshot.filesystems@.len(),
        contains_text(filesystem_metrics(escaped(service), snapshot.filesystems@[i]), part),
    ensures
        contains_text(prometheus(service, snapshot), part),
{
    let name = escaped(service);
    let head = support_metric(true) + cpu_metrics(name, snapshot.process) + process_metrics(
        name,
        snapshot.process,
    );
    lemma_filesystem_stands(name, snapshot.filesystems@, i, part);
    let listed = filesystems_metrics(name, snapshot.filesystems@);
    lemma_stands_in_join(head, listed, none_text(), part);
    lemma_join(head + listed, listed, listed);
}

/// Every filesystem of a snapshot is in its text, with all five gauges.
pub proof fn law_every_filesystem_is_rendered(
    service: Seq<char>,
    snapshot: ResourceSnapshot,
    i: int,
)
    requires
        0 <= i < snapshot.filesystems@.len(),
    ensures
        ({
            let filesystem = snapshot.filesystems@[i];
            let text = prometheus(service, snapshot);
            let shows = |name: Seq<char>, value: Seq<char>|
                contains_text(
                    text,
                    name + "{service=\""@ + escaped(service) + "\",target=\""@ + escaped(
                        filesystem.target@,
                    ) + "\"} "@ + value + "\n"@,
                );
            &&& shows(
                "ores_otel_filesystem_total_bytes"@,
                byte_gauge(filesystem.total_bytes, filesystem.rounded.total_bytes@),
            )
            &&& shows(
                "ores_otel_filesystem_used_bytes"@,
                byte_gauge(filesystem.used_bytes, filesystem.rounded.used_bytes@),
            )
            &&& shows(
                "ores_otel_filesystem_available_bytes"@,
                byte_gauge(filesystem.available_bytes, filesystem.rounded.available_bytes@),
            )
            &&& shows("ores_otel_filesystem_utilization_ratio"@, filesystem.utilization_ratio@)
            &&& shows("ores_otel_filesystem_read_only"@, flag_digit(filesystem.read_only))
        }),
{
    let filesystem = snapshot.filesystems@[i];
    let name = escaped(service);
    let target = escaped(filesystem.target@);
    lemma_filesystem_gauges(name, filesystem);
    lemma_filesystem_part_is_rendered(
        service,
        snapshot,
        i,
        target_sample(
            "ores_otel_filesystem_total_bytes"@,
            name,
            target,
            byte_gauge(filesystem.total_bytes, filesystem.rounded.total_bytes@),
        ),
    );
    lemma_filesystem_part_is_rendered(
        service,
        snapshot,
        i,
        target_sample(
            "ores_otel_filesystem_used_bytes"@,
            name,
            target,
            byte_gauge(filesystem.used_bytes, filesystem.rounded.used_bytes@),
        ),
    );
    lemma_filesystem_part_is_rendered(
        service,
        snapshot,
        i,
        target_sample(
            "ores_otel_filesystem_available_bytes"@,
            name,
            target,
            byte_gauge(filesystem.available_bytes, filesystem.rounded.available_bytes@),
        ),
    );
    lemma_filesystem_part_is_rendered(
        service,
        snapshot,
        i,
        target_sample(
            "ores_otel_filesystem_utilization_ratio"@,
            name,
            target,
            filesystem.utilization_ratio@,
        ),
    );
    lemma_filesystem_part_is_rendered(
        service,
        snapshot,
        i,
        target_sample(
            "ores_otel_filesystem_read_only"@,
            name,
            target,
            flag_digit(filesystem.read_only),
        ),
    );
}

/// A metric with its introduction and one sample, as it is written.
pub open spec fn written_metric(
    name: Seq<char>,
    help: Seq<char>,
    kind: Seq<char>,
    service: Seq<char>,
    value: Seq<char>,
) -> Seq<char> {
    "# HELP "@ + name + " "@ + help + "\n# TYPE "@ + name + " "@ + kind + "\n"@ + name
        + "{service=\""@ + service + "\"} "@ + value + "\n"@
}

proof fn lemma_written_metric(
    name: Seq<char>,
    help: Seq<char>,
    kind: Seq<char>,
    service: Seq<char>,
    value: Seq<char>,
)
    ensures
        metric_head(name, help, kind) + sample(name, service, value) == written_metric(
            name,
            help,
            kind,
            service,
            value,
        ),
{
    assert(metric_head(name, help, kind) + sample(name, service, value) =~= written_metric(
        name,
        help,
        kind,
        service,
        value,
    ));
}

/// A part of a group of metrics stands in the whole text.
proof fn lemma_group_is_rendered(service: Seq<char>, snapshot: ResourceSnapshot, part: Seq<char>)
    requires
        contains_text(cpu_metrics(escaped(service), snapshot.process), part) || contains_text(
            process_metrics(escaped(service), snapshot.process),
            part,
        ),
    ensures
        contains_text(prometheus(service, snapshot), part),
{
    let name = escaped(service);
    let support = support_metric(true);
    let cpu = cpu_metrics(name, snapshot.process);
    let rest = process_metrics(name, snapshot.process);
    let last = filesystems_metrics(name, snapshot.filesystems@);
    if contains_text(cpu, part) {
        lemma_stands_in_join(support, cpu, rest + last, part);
        lemma_join(support + cpu, rest, last);
    } else {
        lemma_stands_in_join(support + cpu, rest, last, part);
    }
}

proof fn lemma_part_of_five(
    m: (Seq<char>, Seq<char>, Seq<char>, Seq<char>, Seq<char>),
    whole: Seq<char>,
)
    requires
        whole == m.0 + m.1 + m.2 + m.3 + m.4,
    ensures
        contains_text(whole, m.0),
        contains_text(whole, m.1),
        contains_text(whole, m.2),
        contains_text(whole, m.3),
        contains_text(whole, m.4),
{
    let none = none_text();
    law_contains(whole, m.0, none, m.1 + m.2 + m.3 + m.4);
    assert(none + m.0 + (m.1 + m.2 + m.3 + m.4) =~= whole);
    law_contains(whole, m.1, m.0, m.2 + m.3 + m.4);
    assert(m.0 + m.1 + (m.2 + m.3 + m.4) =~= whole);
    law_contains(whole, m.2, m.0 + m.1, m.3 + m.4);
    assert(m.0 + m.1 + m.2 + (m.3 + m.4) =~= whole);
    law_contains(whole, m.3, m.0 + m.1 + m.2, m.4);
    law_contains(whole, m.4, m.0 + m.1 + m.2 + m.3, none);
    assert(m.0 + m.1 + m.2 + m.3 + m.4 + none =~= whole);
}

/// Every measurement of the process is in the text of a snapshot, introduced by its own name,
/// help and kind.
pub proof fn law_every_measurement_is_rendered(service: Seq<char>, snapshot: ResourceSnapshot)
    ensures
        ({
            let process = snapshot.process;
            let text = prometheus(service, snapshot);
            let shows = |name: Seq<char>, help: Seq<char>, kind: Seq<char>, value: u64|
                contains_text(
                    text,
                    written_metric(name, help, kind, escaped(service), decimal(value as nat)),
                );
            &&& shows(
                "ores_otel_process_memory_usage_bytes"@,
                "Resident process memory usage in bytes."@,
                "gauge"@,
                process.memory_usage_bytes,
            )
            &&& shows(
                "ores_otel_process_memory_virtual_bytes"@,
                "Virtual process memory usage in bytes."@,
                "gauge"@,
                process.memory_virtual_bytes,
            )
            &&& shows(
                "ores_otel_process_disk_read_bytes_total"@,
                "Cumulative bytes read by the process. On Windows this may include non-disk I/O."@,
                "counter"@,
                process.disk_read_bytes,
            )
            &&& shows(
                "ores_otel_process_disk_write_bytes_total"@,
                "Cumulative bytes written by the process. On Windows this may include non-disk I/O."@,
                "counter"@,
                process.disk_write_bytes,
            )
            &&& shows(
                "ores_otel_process_uptime_seconds"@,
                "Process uptime in seconds."@,
                "gauge"@,
                process.uptime_seconds,
            )
        }),
{
    let name = escaped(service);
    let process = snapshot.process;
    let m0 = u64_metric(
        "ores_otel_process_memory_usage_bytes"@,
        "Resident process memory usage in bytes."@,
        "gauge"@,
        name,
        process.memory_usage_bytes,
    );
    lemma_written_metric(
        "ores_otel_process_memory_usage_bytes"@,
        "Resident process memory usage in bytes."@,
        "gauge"@,
        name,
        decimal(process.memory_usage_bytes as nat),
    );
    let m1 = u64_metric(
        "ores_otel_process_memory_virtual_bytes"@,
        "Virtual process memory usage in bytes."@,
        "gauge"@,
        name,
        process.memory_virtual_bytes,
    );
    lemma_written_metric(
        "ores_otel_process_memory_virtual_bytes"@,
        "Virtual process memory usage in bytes."@,
        "gauge"@,
        name,
        decimal(process.memory_virtual_bytes as nat),
    );
    let m2 = u64_metric(
        "ores_otel_process_disk_read_bytes_total"@,
        "Cumulative bytes read by the process. On Windows this may include non-disk I/O."@,
        "counter"@,
        name,
        process.disk_read_bytes,
    );
    lemma_written_metric(
        "ores_otel_process_disk_read_bytes_total"@,
        "Cumulative bytes read by the process. On Windows this may include non-disk I/O."@,
        "counter"@,
        name,
        decimal(process.disk_read_bytes as nat),
    );
    let m3 = u64_metric(
        "ores_otel_process_disk_write_bytes_total"@,
        "Cumulative bytes written by the process. On Windows this may include non-disk I/O."@,
        "counter"@,
        name,
        process.disk_write_bytes,
    );
    lemma_written_metric(
        "ores_otel_process_disk_write_bytes_total"@,
        "Cumulative bytes written by the process. On Windows this may include non-disk I/O."@,
        "counter"@,
        name,
        decimal(process.disk_write_bytes as nat),
    );
    let m4 = u64_metric(
        "ores_otel_process_uptime_seconds"@,
        "Process uptime in seconds."@,
        "gauge"@,
        name,
        process.uptime_seconds,
    );
    lemma_written_metric(
        "ores_otel_process_uptime_seconds"@,
        "Process uptime in seconds."@,
        "gauge"@,
        name,
        decimal(process.uptime_seconds as nat),
    );
    lemma_part_of_five((m0, m1, m2, m3, m4), process_metrics(name, process));
    lemma_group_is_rendered(service, snapshot, m0);
    lemma_group_is_rendered(service, snapshot, m1);
    lemma_group_is_rendered(service, snapshot, m2);
    lemma_group_is_rendered(service, snapshot, m3);
    lemma_group_is_rendered(service, snapshot, m4);
}

/// The CPU time, whether there was a sample before, and the utilization where there is one
/// are in the text of a snapshot.
pub proof fn law_cpu_measurements_are_rendered(service: Seq<char>, snapshot: ResourceSnapshot)
    ensures
        ({
            let process = snapshot.process;
            let text = prometheus(service, snapshot);
            let shows = |name: Seq<char>, help: Seq<char>, kind: Seq<char>, value: Seq<char>|
                contains_text(text, written_metric(name, help, kind, escaped(service), value));
            &&& shows(
                "ores_otel_process_cpu_time_seconds"@,
                "Total accumulated process CPU time."@,
                "counter"@,
                process.cpu_time_seconds@,
            )
            &&& shows(
                "ores_otel_process_cpu_sample_warmed"@,
                "Whether process CPU utilization has a prior sample."@,
                "gauge"@,
                if process.cpu_sample_warmed {
                    "1"@
                } else {
                    "0"@
                },
            )
            &&& process.cpu_utilization_ratio matches Some(ratio) ==> shows(
                "ores_otel_process_cpu_utilization_ratio"@,
                "Process CPU utilization normalized to logical CPU capacity."@,
                "gauge"@,
                ratio@,
            )
        }),
{
    let name = escaped(service);
    let process = snapshot.process;
    let h0 = metric_head(
        "ores_otel_process_cpu_time_seconds"@,
        "Total accumulated process CPU time."@,
        "counter"@,
    );
    let s0 = sample("ores_otel_process_cpu_time_seconds"@, name, process.cpu_time_seconds@);
    let h1 = metric_head(
        "ores_otel_process_cpu_sample_warmed"@,
        "Whether process CPU utilization has a prior sample."@,
        "gauge"@,
    );
    let s1 = sample(
        "ores_otel_process_cpu_sample_warmed"@,
        name,
        flag_digit(process.cpu_sample_warmed),
    );
    let c2 = match process.cpu_utilization_ratio {
        Some(ratio) => metric_head(
            "ores_otel_process_cpu_utilization_ratio"@,
            "Process CPU utilization normalized to logical CPU capacity."@,
            "gauge"@,
        ) + sample("ores_otel_process_cpu_utilization_ratio"@, name, ratio@),
        None => Seq::empty(),
    };
    lemma_written_metric(
        "ores_otel_process_cpu_time_seconds"@,
        "Total accumulated process CPU time."@,
        "counter"@,
        name,
        process.cpu_time_seconds@,
    );
    lemma_written_metric(
        "ores_otel_process_cpu_sample_warmed"@,
        "Whether process CPU utilization has a prior sample."@,
        "gauge"@,
        name,
        flag_digit(process.cpu_sample_warmed),
    );
    if let Some(ratio) = process.cpu_utilization_ratio {
        lemma_written_metric(
            "ores_otel_process_cpu_utilization_ratio"@,
            "Process CPU utilization normalized to logical CPU capacity."@,
            "gauge"@,
            name,
            ratio@,
        );
    }
    let whole = cpu_metrics(name, process);
    lemma_two_and_a_rest(h0, s0, h1, s1, c2, whole);
    lemma_group_is_rendered(service, snapshot, h0 + s0);
    lemma_group_is_rendered(service, snapshot, h1 + s1);
    lemma_group_is_rendered(service, snapshot, c2);
}

proof fn lemma_two_and_a_rest(
    h0: Seq<char>,
    s0: Seq<char>,
    h1: Seq<char>,
    s1: Seq<char>,
    c2: Seq<char>,
    whole: Seq<char>,
)
    requires
        whole == h0 + s0 + h1 + s1 + c2,
    ensures
        contains_text(whole, h0 + s0),
        contains_text(whole, h1 + s1),
        contains_text(whole, c2),
{
    let none = none_text();
    law_contains(whole, h0 + s0, none, h1 + s1 + c2);
    assert(none + (h0 + s0) + (h1 + s1 + c2) =~= whole);
    law_contains(whole, h1 + s1, h0 + s0, c2);
    assert(h0 + s0 + (h1 + s1) + c2 =~= whole);
    law_contains(whole, c2, h0 + s0 + h1 + s1, none);
    assert(h0 + s0 + h1 + s1 + c2 + none =~= whole);
}

/// The CPU utilization is added to the other CPU metrics where there is one, and they do not
/// depend on it.
pub proof fn law_utilization_is_an_addition(
    service: Seq<char>,
    process: ProcessResourceSnapshot,
    ratio: String,
)
    ensures
        ({
            let with = cpu_metrics(
                service,
                ProcessResourceSnapshot { cpu_utilization_ratio: Some(ratio), ..process },
            );
            let without = cpu_metrics(
                service,
                ProcessResourceSnapshot { cpu_utilization_ratio: None, ..process },
            );
            &&& without.len() < with.len()
            &&& with.take(without.len() as int) == without
        }),
{
    let with = cpu_metrics(
        service,
        ProcessResourceSnapshot { cpu_utilization_ratio: Some(ratio), ..process },
    );
    let without = cpu_metrics(
        service,
        ProcessResourceSnapshot { cpu_utilization_ratio: None, ..process },
    );
    assert(with.take(without.len() as int) =~= without);
    reveal_strlit("\n");
}

/// A scrape shows the snapshot where there is one, and that there is none where there is not.
pub proof fn law_scrapes_show_the_snapshot(service: Seq<char>, snapshot: ResourceSnapshot)
    ensures
        resource_metrics(service, Some(snapshot)) == prometheus(service, snapshot),
        resource_metrics(service, None) == support_metric(false),
{
}

/// No more can be free than there is, and what is not free is used: a larger report of free
/// bytes never leaves more of them used.
pub proof fn law_usage_is_bounded(
    total: u64,
    available: u64,
    more: u64,
    usage: FilesystemUsage,
    other: FilesystemUsage,
)
    requires
        available <= more,
        call_ensures(FilesystemUsage::of, (total, available), usage),
        call_ensures(FilesystemUsage::of, (total, more), other),
    ensures
        usage.total == total,
        usage.used + usage.available == total,
        available <= total ==> usage.available == available,
        available > total ==> usage.used == 0,
        other.used <= usage.used,
{
}

/// A scrape keeps every reading in its place, under the label of that place, and shows a
/// utilization of the CPU exactly where there was a sample before.
pub proof fn law_scrapes_keep_readings(
    process: ProcessReading,
    warmed: bool,
    filesystems: Vec<FilesystemReading>,
    snapshot: ResourceSnapshot,
    i: int,
)
    requires
        call_ensures(assemble, (process, warmed, filesystems), snapshot),
    ensures
        snapshot.process.cpu_utilization_ratio == (if warmed {
            Some(process.cpu_utilization_ratio)
        } else {
            None::<String>
        }),
        snapshot.process.cpu_sample_warmed == warmed,
        snapshot.process.cpu_time_seconds == process.cpu_time_seconds,
        snapshot.process.memory_usage_bytes == process.memory_usage_bytes,
        snapshot.process.memory_virtual_bytes == process.memory_virtual_bytes,
        snapshot.process.disk_read_bytes == process.disk_read_bytes,
        snapshot.process.disk_write_bytes == process.disk_write_bytes,
        snapshot.process.uptime_seconds == process.uptime_seconds,
        snapshot.filesystems@.len() == filesystems@.len(),
        0 <= i < filesystems@.len() ==> {
            let shown = snapshot.filesystems@[i];
            let reading = filesystems@[i];
            &&& shown.target@ == "fs"@ + decimal(i as nat)
            &&& shown.total_bytes == reading.usage.total
            &&& shown.used_bytes == reading.usage.used
            &&& shown.available_bytes == reading.usage.available
            &&& shown.rounded == reading.rounded
            &&& shown.utilization_ratio == reading.utilization_ratio
            &&& shown.read_only == reading.read_only
        },
{
    if 0 <= i < filesystems@.len() {
        assert(labels_reading(snapshot.filesystems@[i], filesystems@[i], i as nat));
    }
}

} // verus!
