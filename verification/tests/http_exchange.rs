use ores_otel_sidecar::http::{
    is_head_only, probe_request, probe_status, response_for, status_line, write_http, Headers,
    LineRead, ProbeFault, Reading, Reject, Request,
};
use ores_otel_sidecar::identity::SidecarIdentity;
use ores_otel_sidecar::probe::{NoopProbe, ProductProbe};
use serde_json::Value;

fn lines_of(request: &str) -> Vec<LineRead> {
    let mut lines = Vec::new();
    let mut rest = request;
    while !rest.is_empty() {
        let end = rest.find('\n').map_or(rest.len(), |at| at + 1);
        lines.push(LineRead::Line(rest[..end].to_owned()));
        rest = &rest[end..];
    }
    lines.push(LineRead::End);
    lines
}

fn read(request: &str) -> (Request, u64) {
    let mut reading = Reading::RequestLine;
    for line in lines_of(request) {
        reading = reading.advance(line);
    }
    match reading {
        Reading::Finished { request, discard } => (request, discard),
        other => panic!("unfinished: {other:?}"),
    }
}

fn exchange<P: ProductProbe>(probe: &P, request: &str) -> String {
    let (request, _) = read(request);
    let (code, content_type, body) =
        response_for(request, SidecarIdentity::ores_otel(), probe, &None);
    write_http(code, content_type, &body, is_head_only(request))
}

fn headers_of(response: &str) -> &str {
    response.split("\r\n\r\n").next().unwrap_or(response)
}

#[test]
fn loopback_listener_serves_health_metrics_and_rejects_post() {
    let health = exchange(
        &NoopProbe,
        "GET /healthz HTTP/1.1\r\nHost: localhost\r\n\r\n",
    );
    assert!(health.starts_with("HTTP/1.1 200 OK"));
    assert!(health.contains("application/json"));
    assert!(health.contains("\"ok\":true"));
    assert!(health.contains("ores-otel-sidecar"));

    let metrics = exchange(
        &NoopProbe,
        "GET /metrics HTTP/1.1\r\nHost: localhost\r\n\r\n",
    );
    assert!(metrics.contains("ores_otel_sidecar_up"));
    assert!(metrics.contains("service=\"ores-otel-sidecar\""));

    let posted = exchange(
        &NoopProbe,
        "POST /healthz HTTP/1.1\r\nHost: localhost\r\nContent-Length: 2\r\n\r\n{}",
    );
    assert!(posted.starts_with("HTTP/1.1 400") || posted.starts_with("HTTP/1.1 405"));

    let missing = exchange(&NoopProbe, "GET /nope HTTP/1.1\r\nHost: localhost\r\n\r\n");
    assert!(missing.starts_with("HTTP/1.1 404"));
}

#[test]
fn responses_set_hardening_headers_and_head_omits_body() {
    let get = exchange(
        &NoopProbe,
        "GET /healthz HTTP/1.1\r\nHost: localhost\r\n\r\n",
    );
    let headers = headers_of(&get).to_ascii_lowercase();
    assert!(headers.contains("connection: close"));
    assert!(headers.contains("cache-control: no-store"));
    assert!(headers.contains("x-content-type-options: nosniff"));
    assert!(headers.contains("x-frame-options: deny"));
    assert!(headers.contains("content-security-policy: default-src 'none'"));
    assert!(headers.contains("content-length:"));

    let head = exchange(
        &NoopProbe,
        "HEAD /healthz HTTP/1.1\r\nHost: localhost\r\n\r\n",
    );
    assert!(head.starts_with("HTTP/1.1 200 OK"));
    let parts: Vec<&str> = head.splitn(2, "\r\n\r\n").collect();
    assert_eq!(parts.get(1).copied().unwrap_or("x").trim(), "");
}

struct Down;

impl ProductProbe for Down {
    fn ready(&self) -> bool {
        false
    }
}

#[test]
fn readyz_fails_closed_when_probe_is_not_ready() {
    let body = exchange(&Down, "GET /readyz HTTP/1.1\r\nHost: localhost\r\n\r\n");
    assert!(body.starts_with("HTTP/1.1 503"));
    assert!(body.contains("\"ok\":false"));
}

#[test]
fn chunked_and_query_and_alias_paths() {
    let alias = exchange(
        &NoopProbe,
        "GET /health HTTP/1.1\r\nHost: localhost\r\n\r\n",
    );
    assert!(alias.starts_with("HTTP/1.1 200 OK"));

    let queried = exchange(
        &NoopProbe,
        "GET /readyz?foo=1 HTTP/1.1\r\nHost: localhost\r\n\r\n",
    );
    assert!(queried.starts_with("HTTP/1.1 200 OK"));

    let chunked = exchange(
        &NoopProbe,
        "POST /healthz HTTP/1.1\r\nHost: localhost\r\nTransfer-Encoding: chunked\r\n\r\n0\r\n\r\n",
    );
    assert!(chunked.starts_with("HTTP/1.1 400") || chunked.starts_with("HTTP/1.1 405"));
}

#[test]
fn http11_missing_host_expect_and_duplicate_length_fail_closed() {
    let no_host = exchange(&NoopProbe, "GET /healthz HTTP/1.1\r\n\r\n");
    assert!(no_host.starts_with("HTTP/1.1 400"), "{no_host}");

    let expect = exchange(
        &NoopProbe,
        "GET /healthz HTTP/1.1\r\nHost: localhost\r\nExpect: 100-continue\r\n\r\n",
    );
    assert!(expect.starts_with("HTTP/1.1 400"), "{expect}");

    let duplicate = exchange(
        &NoopProbe,
        "GET /healthz HTTP/1.1\r\nHost: localhost\r\nContent-Length: 0\r\nContent-Length: 8\r\n\r\n",
    );
    assert!(duplicate.starts_with("HTTP/1.1 400"), "{duplicate}");
}

#[test]
fn http10_without_host_is_ok_and_http2_is_invalid() {
    let http10 = exchange(&NoopProbe, "GET /healthz HTTP/1.0\r\n\r\n");
    assert!(http10.starts_with("HTTP/1.1 200 OK"), "{http10}");

    let encoded = exchange(
        &NoopProbe,
        "GET /healthz%2e%2e HTTP/1.1\r\nHost: localhost\r\n\r\n",
    );
    assert!(encoded.starts_with("HTTP/1.1 404"), "{encoded}");

    let http2 = exchange(
        &NoopProbe,
        "GET /healthz HTTP/2.0\r\nHost: localhost\r\n\r\n",
    );
    assert!(http2.starts_with("HTTP/1.1 400"), "{http2}");
}

#[test]
fn a_whole_answer_is_exact() {
    assert_eq!(
        exchange(&NoopProbe, "GET /healthz HTTP/1.0\r\n\r\n"),
        "HTTP/1.1 200 OK\r\ncontent-type: application/json\r\ncontent-length: 42\r\nconnection: close\r\ncache-control: no-store\r\nx-content-type-options: nosniff\r\nx-frame-options: DENY\r\ncontent-security-policy: default-src 'none'; connect-src 'self'\r\n\r\n{\"ok\":true,\"service\":\"ores-otel-sidecar\"}\n"
    );
    assert_eq!(
        exchange(&Down, "GET /readyz HTTP/1.0\r\n\r\n")
            .split("\r\n\r\n")
            .nth(1),
        Some("{\"ok\":false,\"product\":null,\"service\":\"ores-otel-sidecar\"}\n")
    );
}

struct Described;

impl ProductProbe for Described {
    fn extra_health(&self) -> Option<Value> {
        serde_json::from_str("{ \"tree\": [1, \"a\\\"b\"] }").ok()
    }
}

#[test]
fn product_payload_is_shown_by_health_and_readiness() {
    let health = exchange(&Described, "GET /healthz HTTP/1.0\r\n\r\n");
    assert!(health.ends_with(
        "{\"ok\":true,\"service\":\"ores-otel-sidecar\",\"product\":{\"tree\":[1,\"a\\\"b\"]}}\n"
    ));
    let ready = exchange(&Described, "GET /readyz HTTP/1.0\r\n\r\n");
    assert!(ready.ends_with(
        "{\"ok\":true,\"product\":{\"tree\":[1,\"a\\\"b\"]},\"service\":\"ores-otel-sidecar\"}\n"
    ));
}

#[test]
fn service_names_are_escaped_in_documents() {
    let identity = SidecarIdentity::new("a\"b", "KEY");
    let (request, _) = read("GET /healthz HTTP/1.0\r\n\r\n");
    let (_, _, body) = response_for(request, identity, &NoopProbe, &None);
    assert_eq!(body, "{\"ok\":true,\"service\":\"a\\\"b\"}\n");
}

#[test]
fn every_rejection_has_its_answer() {
    let cases = vec![
        (Reject::MethodNotAllowed, 405, "method not allowed\n"),
        (Reject::NotFound, 404, "not found\n"),
        (Reject::LineTooLong, 431, "request too large\n"),
        (Reject::HeaderTooLarge, 431, "request too large\n"),
        (Reject::BodyNotAllowed, 400, "request body not allowed\n"),
        (Reject::Invalid, 400, "bad request\n"),
    ];
    for (reject, code, body) in cases {
        let (got, content_type, text) = response_for(
            Request::Reject(reject),
            SidecarIdentity::ores_otel(),
            &NoopProbe,
            &None,
        );
        assert_eq!(got, code);
        assert_eq!(content_type, "text/plain; charset=utf-8");
        assert_eq!(text, body);
        assert!(status_line(code).starts_with(&code.to_string()));
    }
    assert_eq!(status_line(413), "413 Payload Too Large");
    assert_eq!(status_line(418), "500 Internal Server Error");
}

#[test]
fn header_lines_are_bounded() {
    let mut request = "GET /healthz HTTP/1.1\r\nHost: x\r\n".to_owned();
    for index in 1..32 {
        request.push_str(&format!("X-{index}: y\r\n"));
    }
    let full = format!("{request}\r\n");
    assert!(matches!(read(&full).0, Request::Accepted { .. }));
    let over = format!("{request}X-32: y\r\n\r\n");
    assert_eq!(read(&over).0, Request::Reject(Reject::HeaderTooLarge));

    let long = format!("GET /healthz HTTP/1.0\r\nX: {}\r\n\r\n", "y".repeat(1100));
    assert_eq!(read(&long).0, Request::Reject(Reject::HeaderTooLarge));
    let long = format!("GET /{} HTTP/1.0\r\n\r\n", "y".repeat(2100));
    assert_eq!(read(&long).0, Request::Reject(Reject::LineTooLong));
}

#[test]
fn bodies_are_announced_and_bounded() {
    assert_eq!(
        read("GET /healthz HTTP/1.0\r\nContent-Length: 7\r\n\r\n1234567"),
        (Request::Reject(Reject::BodyNotAllowed), 7)
    );
    assert_eq!(
        read("GET /healthz HTTP/1.0\r\ncontent-LENGTH: nonsense\r\n\r\n"),
        (Request::Reject(Reject::BodyNotAllowed), 64)
    );
    assert!(matches!(
        read("GET /healthz HTTP/1.0\r\nContent-Length: 0\r\nContent-Length: +0\r\n\r\n").0,
        Request::Accepted { .. }
    ));
}

#[test]
fn broken_streams_and_lines_are_invalid() {
    let failed = Reading::RequestLine.advance(LineRead::Failed);
    let ended = Reading::RequestLine.advance(LineRead::End);
    let invalid = Reading::Finished {
        request: Request::Reject(Reject::Invalid),
        discard: 0,
    };
    assert_eq!(failed, invalid);
    assert_eq!(ended, invalid);
    let broken = Reading::RequestLine
        .advance(LineRead::Line("GET /healthz HTTP/1.0\r\n".to_owned()))
        .advance(LineRead::Failed);
    assert_eq!(broken, invalid);
    assert_eq!(
        Headers::default().with("no separator"),
        Err(Reject::Invalid)
    );
    assert_eq!(Headers::default().with("a:\0"), Err(Reject::Invalid));
    assert_eq!(Headers::default().with("Host:  \r\n"), Err(Reject::Invalid));
    assert_eq!(
        Headers::default().with("Transfer-Encoding: chunked\r\n"),
        Err(Reject::BodyNotAllowed)
    );
    let kept = Headers::default().with("HOST: x\r\n").unwrap();
    assert!(kept.saw_host);
    assert_eq!(kept.count, 1);
    assert_eq!(kept.content_length, None);
}

#[test]
fn bounded_probe_accepts_only_a_success_status() {
    assert_eq!(probe_status("HTTP/1.1 200 OK\r\n"), Ok(200));
    assert_eq!(
        probe_status("HTTP/1.1 503 Service Unavailable\r\n"),
        Ok(503)
    );
}

#[test]
fn malformed_status_lines_and_foreign_paths_fail_closed() {
    for line in [
        "not-http\r\n",
        "",
        "HTTP/2 200 OK\r\n",
        "HTTP/1.1 20 OK\r\n",
        "HTTP/1.1 20x OK\r\n",
        "HTTP/1.1\r\n",
        "HTTP/1.1 200\0\r\n",
        "HTTP/1.1\r200\r\n",
    ] {
        assert_eq!(
            probe_status(line),
            Err(ProbeFault::InvalidStatusLine),
            "{line:?}"
        );
    }
    let long = format!("HTTP/1.1 200 {}\r\n", "x".repeat(300));
    assert_eq!(probe_status(&long), Err(ProbeFault::InvalidStatusLine));
    assert_eq!(probe_status("HTTP/1.0   999"), Ok(999));
    assert_eq!(
        probe_request("/not-a-probe"),
        Err(ProbeFault::UnsupportedPath)
    );
    assert_eq!(
        probe_request("/readyz").as_deref(),
        Ok("GET /readyz HTTP/1.1\r\nHost: 127.0.0.1\r\nConnection: close\r\n\r\n")
    );
    assert_eq!(
        ProbeFault::UnsupportedPath.message(),
        "unsupported sidecar probe path"
    );
    assert_eq!(
        ProbeFault::InvalidStatusLine.message(),
        "invalid sidecar probe status line"
    );
}
