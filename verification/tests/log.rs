use std::collections::BTreeSet;

use ores_otel_sidecar::health::current;
use ores_otel_sidecar::identity::SidecarIdentity;
use ores_otel_sidecar::log::{
    diagnostic_at, diagnostic_line, timestamp, valid_service, Calendar, Operation, Outcome,
    Severity, FALLBACK_SERVICE, SCHEMA,
};
use serde_json::Value;

const FIXED_NOW: i128 = 1_788_027_200 * 1_000_000_000;

#[test]
fn diagnostic_has_the_exact_closed_schema() {
    let output = diagnostic_at(
        "ores-otel-sidecar",
        Severity::Fatal,
        Operation::SidecarListen,
        Outcome::Failed,
        true,
        FIXED_NOW,
    )
    .unwrap();
    let value: Value = serde_json::from_slice(output.as_bytes()).unwrap();
    let keys = value
        .as_object()
        .unwrap()
        .keys()
        .map(String::as_str)
        .collect::<BTreeSet<_>>();
    assert_eq!(
        keys,
        BTreeSet::from([
            "attempt",
            "component",
            "dropped",
            "operation",
            "outcome",
            "retryable",
            "schema",
            "service",
            "severity",
            "suppressed",
            "suppressionSaturated",
            "timestamp",
        ])
    );
    assert_eq!(value["schema"], SCHEMA);
    assert_eq!(value["component"], "sidecar");
    assert_eq!(value["operation"], "sidecar_listen");
    assert_eq!(value["severity"], "fatal");
    assert_eq!(value["outcome"], "failed");
    assert_eq!(value["attempt"], 0);
    assert!(output.len() < 512, "diagnostic must remain bounded");
}

#[test]
fn invalid_service_is_replaced_without_serializing_credential_text() {
    let encoded = diagnostic_at(
        "Authorization:Bearer-secret",
        Severity::Error,
        Operation::SidecarConfigure,
        Outcome::Rejected,
        false,
        FIXED_NOW,
    )
    .unwrap();
    assert!(encoded.contains(FALLBACK_SERVICE), "{encoded}");
    assert!(!encoded.contains("Authorization"), "{encoded}");
    assert!(!encoded.contains("Bearer-secret"), "{encoded}");
}

#[test]
fn a_whole_diagnostic_is_exact() {
    // 2026-08-29 17:33:20.123 UTC
    assert_eq!(
        diagnostic_at(
            "svc",
            Severity::Warn,
            Operation::SidecarProbe,
            Outcome::Rejected,
            false,
            1_788_024_800_123_456_789,
        )
        .unwrap(),
        "{\"schema\":\"ores.otel.log/internal-diagnostic/v1\",\"timestamp\":\"2026-08-29T17:33:20.123Z\",\"service\":\"svc\",\"severity\":\"warn\",\"component\":\"sidecar\",\"operation\":\"sidecar_probe\",\"outcome\":\"rejected\",\"retryable\":false,\"attempt\":0,\"dropped\":0,\"suppressed\":0,\"suppressionSaturated\":false}\n"
    );
}

#[test]
fn moments_come_from_the_calendar() {
    let at = |nanoseconds| {
        diagnostic_at(
            "svc",
            Severity::Error,
            Operation::SidecarProbe,
            Outcome::Failed,
            false,
            nanoseconds,
        )
        .map(|line| {
            let value: Value = serde_json::from_str(&line).unwrap();
            value["timestamp"].as_str().unwrap().to_owned()
        })
    };
    assert_eq!(at(0).as_deref(), Some("1970-01-01T00:00:00.000Z"));
    assert_eq!(
        at(951_782_400_000_000_000).as_deref(),
        Some("2000-02-29T00:00:00.000Z")
    );
    assert_eq!(at(-1_000_000).as_deref(), Some("1969-12-31T23:59:59.999Z"));
    assert_eq!(
        at(253_402_300_799_999_000_000).as_deref(),
        Some("9999-12-31T23:59:59.999Z")
    );
    assert_eq!(
        at(-377_705_116_800_000_000_000).as_deref(),
        Some("-9999-01-01T00:00:00.000Z")
    );
    assert_eq!(
        at(-62_162_121_600_000_000_000).as_deref(),
        Some("0000-02-29T00:00:00.000Z")
    );
    assert_eq!(at(-377_705_116_800_000_000_001), None);
    assert_eq!(at(253_402_300_800_000_000_000), None);
    assert_eq!(at(i128::MAX), None);
}

#[test]
fn timestamps_are_padded() {
    let now = Calendar {
        year: 7,
        month: 1,
        day: 2,
        hour: 3,
        minute: 4,
        second: 5,
        millisecond: 6,
    };
    assert_eq!(timestamp(now), "0007-01-02T03:04:05.006Z");
    assert_eq!(
        timestamp(Calendar { year: -7, ..now }),
        "-007-01-02T03:04:05.006Z"
    );
    assert_eq!(
        timestamp(Calendar { year: -1234, ..now }),
        "-1234-01-02T03:04:05.006Z"
    );
}

#[test]
fn every_name_that_may_be_shown_is_shown() {
    for service in ["a", "A.b_c-d", "9lives"] {
        assert!(valid_service(service), "{service}");
    }
    for service in ["", ".a", "-a", "_a", "a b", "a\"b", "\u{e9}"] {
        assert!(!valid_service(service), "{service}");
    }
    assert!(valid_service(&"a".repeat(128)));
    assert!(!valid_service(&"a".repeat(129)));
}

#[test]
fn the_longest_diagnostic_stays_bounded() {
    let line = diagnostic_line(
        &"a".repeat(128),
        Severity::Error,
        Operation::SidecarConfigure,
        Outcome::Rejected,
        false,
        Calendar {
            year: -9999,
            month: 12,
            day: 31,
            hour: 23,
            minute: 59,
            second: 59,
            millisecond: 999,
        },
    );
    assert!(line.len() < 512);
    assert!(line.contains("\"severity\":\"error\""));
    assert!(line.contains("\"operation\":\"sidecar_configure\""));
}

#[test]
fn default_health_omits_product() {
    let json: Value =
        serde_json::from_str(&current(SidecarIdentity::ores_otel(), None).to_json()).unwrap();
    assert_eq!(json["ok"], true);
    assert_eq!(json["service"], "ores-otel-sidecar");
    assert!(json.get("product").is_none());
}

#[test]
fn product_health_is_nested() {
    let extra: Value = serde_json::from_str("{ \"tree_id\": \"premarital_protection_v1\" }").unwrap();
    let json: Value =
        serde_json::from_str(&current(SidecarIdentity::ores_otel(), Some(extra)).to_json()).unwrap();
    assert_eq!(json["product"]["tree_id"], "premarital_protection_v1");
}
