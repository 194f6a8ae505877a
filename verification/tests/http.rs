use ores_otel_sidecar::http::{
    classify_request_line, response_for, Method, Reject, Request, Route,
};
use ores_otel_sidecar::identity::SidecarIdentity;
use ores_otel_sidecar::probe::{NoopProbe, ProductProbe};

#[test]
fn get_healthz_is_classified() {
    assert_eq!(
        classify_request_line("GET /healthz HTTP/1.1"),
        Request::Accepted {
            method: Method::Get,
            route: Route::Healthz
        }
    );
}

#[test]
fn post_is_rejected() {
    assert_eq!(
        classify_request_line("POST /healthz HTTP/1.1"),
        Request::Reject(Reject::MethodNotAllowed)
    );
}

#[test]
fn traversal_and_unknown_paths_are_404() {
    assert_eq!(
        classify_request_line("GET /healthz/../secret HTTP/1.1"),
        Request::Reject(Reject::NotFound)
    );
    assert_eq!(
        classify_request_line("GET /admin HTTP/1.1"),
        Request::Reject(Reject::NotFound)
    );
}

#[test]
fn health_response_is_json_ok() {
    let (code, ctype, body) = response_for(
        Request::Accepted {
            method: Method::Get,
            route: Route::Healthz,
        },
        SidecarIdentity::ores_otel(),
        &NoopProbe,
        &None,
    );
    assert_eq!(code, 200);
    assert_eq!(ctype, "application/json");
    assert!(body.contains("\"ok\":true"));
    assert!(body.contains("ores-otel-sidecar"));
}

#[test]
fn metrics_response_includes_process_and_filesystem_collector_state() {
    let (code, ctype, body) = response_for(
        Request::Accepted {
            method: Method::Get,
            route: Route::Metrics,
        },
        SidecarIdentity::ores_otel(),
        &NoopProbe,
        &None,
    );
    assert_eq!(code, 200);
    assert_eq!(ctype, "text/plain; version=0.0.4");
    assert!(body.contains("ores_otel_sidecar_up"));
    assert!(body.contains("ores_otel_resource_collector_supported"));
}

#[test]
fn aliases_and_query_strings_map_to_probes() {
    assert_eq!(
        classify_request_line("GET /health HTTP/1.1"),
        Request::Accepted {
            method: Method::Get,
            route: Route::Healthz
        }
    );
    assert_eq!(
        classify_request_line("HEAD /readyz?verbose=1 HTTP/1.1"),
        Request::Accepted {
            method: Method::Head,
            route: Route::Readyz
        }
    );
    assert_eq!(
        classify_request_line("GET /ready HTTP/1.1"),
        Request::Accepted {
            method: Method::Get,
            route: Route::Readyz
        }
    );
}

#[test]
fn options_trace_and_missing_version_fail_closed() {
    assert_eq!(
        classify_request_line("OPTIONS /healthz HTTP/1.1"),
        Request::Reject(Reject::MethodNotAllowed)
    );
    assert_eq!(
        classify_request_line("TRACE /healthz HTTP/1.1"),
        Request::Reject(Reject::MethodNotAllowed)
    );
    assert_eq!(
        classify_request_line("GET /healthz"),
        Request::Reject(Reject::Invalid)
    );
    assert_eq!(classify_request_line(""), Request::Reject(Reject::Invalid));
    assert_eq!(
        classify_request_line("GET /healthz HTTP/1.0"),
        Request::Accepted {
            method: Method::Get,
            route: Route::Healthz
        }
    );
}

#[test]
fn encoded_dots_and_backslash_are_not_found() {
    assert_eq!(
        classify_request_line("GET /healthz\\..\\etc HTTP/1.1"),
        Request::Reject(Reject::NotFound)
    );
    assert_eq!(
        classify_request_line("GET healthz HTTP/1.1"),
        Request::Reject(Reject::NotFound)
    );
    assert_eq!(
        classify_request_line("GET /healthz%2e%2e HTTP/1.1"),
        Request::Reject(Reject::NotFound)
    );
}

#[test]
fn http2_and_extra_tokens_are_invalid() {
    assert_eq!(
        classify_request_line("GET /healthz HTTP/2.0"),
        Request::Reject(Reject::Invalid)
    );
    assert_eq!(
        classify_request_line("GET /healthz HTTP/1.1 extra"),
        Request::Reject(Reject::Invalid)
    );
}

struct NotReady;

impl ProductProbe for NotReady {
    fn ready(&self) -> bool {
        false
    }
}

#[test]
fn unreadiness_is_503() {
    let (code, _, body) = response_for(
        Request::Accepted {
            method: Method::Get,
            route: Route::Readyz,
        },
        SidecarIdentity::ores_otel(),
        &NotReady,
        &None,
    );
    assert_eq!(code, 503);
    assert!(body.contains("\"ok\":false"));
}

#[test]
fn oversized_request_line_is_431() {
    let line = format!("GET /{} HTTP/1.1", "a".repeat(3000));
    assert_eq!(
        classify_request_line(&line),
        Request::Reject(Reject::LineTooLong)
    );
}

#[test]
fn probes_may_be_trait_objects() {
    let probe: Box<dyn ProductProbe> = Box::new(NotReady);
    let (code, _, _) = response_for(
        Request::Accepted {
            method: Method::Get,
            route: Route::Readyz,
        },
        SidecarIdentity::ores_otel(),
        probe.as_ref(),
        &None,
    );
    assert_eq!(code, 503);
}
