//! The loopback HTTP surface: `/healthz`, `/readyz` and `/metrics`.
//!
//! Requests are read line by line and judged before anything is answered. Nothing
//! with a body is accepted, and every answer closes its connection. The sockets
//! belong to the process around this module: it hands in the lines that it read and
//! sends out the text that comes back.

use crate::apm::{prometheus_text, resource_metrics, ResourceSnapshot};
use crate::health::{
    current, flag_json, flag_text, json_member, product_text, unwritable, Health,
};
use crate::identity::SidecarIdentity;
use crate::json::{document_json, string_json, string_text};
use crate::probe::ProductProbe;
use crate::text::{
    after, after_first_word, all_digits, append_text, before, byte_len, byte_length, chars_of,
    chars_spell, contains_char, contains_text, decimal, decimal_text, digits_value, find_char,
    first_word, has_part, has_prefix, is_digit, lemma_position, lower, lowered, parse_unsigned, parsed_unsigned,
    pieces_view, same_text, split, split_at_char, split_word, starts_with, trim, trim_line_end, trimmed,
    without_line_end,
};
use vstd::prelude::*;
use vstd::slice::slice_subrange;

verus! {

pub const MAX_REQUEST_LINE: usize = 2048;

pub const MAX_HEADERS: usize = 32;

pub const MAX_HEADER_LINE: usize = 1024;

/// The most of an unwanted body that is read before it is refused.
pub const MAX_DISCARDED_BODY: u64 = 64;

pub const MAX_STATUS_LINE: usize = 256;

#[derive(Clone, Copy, Debug, PartialEq, Eq, Structural)]
pub enum Method {
    Get,
    Head,
}

#[derive(Clone, Copy, Debug, PartialEq, Eq, Structural)]
pub enum Route {
    Healthz,
    Readyz,
    Metrics,
}

#[derive(Clone, Copy, Debug, PartialEq, Eq, Structural)]
pub enum Reject {
    MethodNotAllowed,
    NotFound,
    LineTooLong,
    HeaderTooLarge,
    BodyNotAllowed,
    Invalid,
}

#[derive(Clone, Copy, Debug, PartialEq, Eq, Structural)]
pub enum Request {
    Accepted { method: Method, route: Route },
    Reject(Reject),
}

/// The method that a word names.
pub open spec fn method_named(word: Seq<char>) -> Result<Method, Reject> {
    if word == "GET"@ {
        Ok(Method::Get)
    } else if word == "HEAD"@ {
        Ok(Method::Head)
    } else if word.len() == 0 {
        Err(Reject::Invalid)
    } else {
        Err(Reject::MethodNotAllowed)
    }
}

/// The endpoint that a path without its query names.
pub open spec fn route_named(path: Seq<char>) -> Option<Route> {
    if path == "/healthz"@ || path == "/health"@ {
        Some(Route::Healthz)
    } else if path == "/readyz"@ || path == "/ready"@ {
        Some(Route::Readyz)
    } else if path == "/metrics"@ {
        Some(Route::Metrics)
    } else {
        None
    }
}

/// A path that could be read in more than one way, or is not absolute.
pub open spec fn ambiguous_path(path: Seq<char>) -> bool {
    ||| path.contains('%')
    ||| contains_text(path, ".."@)
    ||| path.contains('\\')
    ||| path.contains('\t')
    ||| !starts_with(path, "/"@)
}

pub open spec fn supported_version(version: Seq<char>) -> bool {
    version == "HTTP/1.1"@ || version == "HTTP/1.0"@
}

/// What the words of a request line ask for.
pub open spec fn classified_words(words: Seq<Seq<char>>) -> Request {
    match method_named(words[0]) {
        Err(reject) => Request::Reject(reject),
        Ok(method) => if words.len() != 3 || words[1].len() == 0 || !supported_version(words[2]) {
            Request::Reject(Reject::Invalid)
        } else if ambiguous_path(words[1]) {
            Request::Reject(Reject::NotFound)
        } else {
            match route_named(before(words[1], '?')) {
                Some(route) => Request::Accepted { method, route },
                None => Request::Reject(Reject::NotFound),
            }
        },
    }
}

/// What a request line asks for.
pub open spec fn classified(line: Seq<char>) -> Request {
    let bare = trim_line_end(line);
    if byte_length(bare) > MAX_REQUEST_LINE {
        Request::Reject(Reject::LineTooLong)
    } else if bare.contains('\0') || bare.contains('\r') {
        Request::Reject(Reject::Invalid)
    } else {
        classified_words(split(bare, ' '))
    }
}

fn named_method(word: &[char]) -> (method: Result<Method, Reject>)
    ensures
        method == method_named(word@),
{
    if chars_spell(word, "GET") {
        Ok(Method::Get)
    } else if chars_spell(word, "HEAD") {
        Ok(Method::Head)
    } else if word.len() == 0 {
        Err(Reject::Invalid)
    } else {
        Err(Reject::MethodNotAllowed)
    }
}

fn named_route(path: &[char]) -> (route: Option<Route>)
    ensures
        route == route_named(path@),
{
    if chars_spell(path, "/healthz") || chars_spell(path, "/health") {
        Some(Route::Healthz)
    } else if chars_spell(path, "/readyz") || chars_spell(path, "/ready") {
        Some(Route::Readyz)
    } else if chars_spell(path, "/metrics") {
        Some(Route::Metrics)
    } else {
        None
    }
}

/// Classify the line that opens a request.
pub fn classify_request_line(line: &str) -> (request: Request)
    ensures
        request == classified(line@),
{
    let all = chars_of(line);
    let bare = without_line_end(all.as_slice());
    let bare_text = crate::text::string_of(bare);
    if byte_len(bare_text.as_str()) > MAX_REQUEST_LINE {
        return Request::Reject(Reject::LineTooLong);
    }
    if contains_char(bare, '\0') || contains_char(bare, '\r') {
        return Request::Reject(Reject::Invalid);
    }
    let words = split_at_char(bare, ' ');
    let ghost spelled = split(bare@, ' ');
    assert(pieces_view(words@).len() == words@.len());
    assert(forall|i: int| 0 <= i < words@.len() ==> spelled[i] == (#[trigger] words@[i])@);
    let method = match named_method(words[0]) {
        Ok(method) => method,
        Err(reject) => return Request::Reject(reject),
    };
    if words.len() != 3 {
        return Request::Reject(Reject::Invalid);
    }
    let path = words[1];
    let version = words[2];
    if path.len() == 0 || (!chars_spell(version, "HTTP/1.1") && !chars_spell(version, "HTTP/1.0")) {
        return Request::Reject(Reject::Invalid);
    }
    if contains_char(path, '%') || has_part(path, "..") || contains_char(path, '\\')
        || contains_char(path, '\t') || !has_prefix(path, "/") {
        return Request::Reject(Reject::NotFound);
    }
    let bare_path = slice_subrange(path, 0, find_char(path, '?'));
    assert(bare_path@ =~= before(path@, '?'));
    match named_route(bare_path) {
        Some(route) => Request::Accepted { method, route },
        None => Request::Reject(Reject::NotFound),
    }
}

/// The code and the reason phrase of an answer.
pub open spec fn status_text(code: u16) -> Seq<char> {
    if code == 200 {
        "200 OK"@
    } else if code == 405 {
        "405 Method Not Allowed"@
    } else if code == 404 {
        "404 Not Found"@
    } else if code == 400 {
        "400 Bad Request"@
    } else if code == 413 {
        "413 Payload Too Large"@
    } else if code == 431 {
        "431 Request Header Fields Too Large"@
    } else if code == 503 {
        "503 Service Unavailable"@
    } else {
        "500 Internal Server Error"@
    }
}

pub fn status_line(code: u16) -> (line: &'static str)
    ensures
        line@ == status_text(code),
{
    match code {
        200 => "200 OK",
        405 => "405 Method Not Allowed",
        404 => "404 Not Found",
        400 => "400 Bad Request",
        413 => "413 Payload Too Large",
        431 => "431 Request Header Fields Too Large",
        503 => "503 Service Unavailable",
        _ => "500 Internal Server Error",
    }
}

/// An answer: its code, its content type and its body.
pub struct Answer {
    pub code: u16,
    pub content_type: Seq<char>,
    pub body: Seq<char>,
}

pub open spec fn plain(code: u16, body: Seq<char>) -> Answer {
    Answer { code, content_type: "text/plain; charset=utf-8"@, body }
}

/// How a rejected request is answered.
pub open spec fn rejection(reject: Reject) -> Answer {
    match reject {
        Reject::MethodNotAllowed => plain(405, "method not allowed\n"@),
        Reject::NotFound => plain(404, "not found\n"@),
        Reject::LineTooLong | Reject::HeaderTooLarge => plain(431, "request too large\n"@),
        Reject::BodyNotAllowed => plain(400, "request body not allowed\n"@),
        Reject::Invalid => plain(400, "bad request\n"@),
    }
}

/// The JSON text of a readiness document, given the JSON texts of its members, in the
/// order of the member names. A product that says nothing of itself is null.
pub open spec fn readiness_members(
    ready: bool,
    product: Option<Seq<char>>,
    service: Seq<char>,
) -> Seq<char> {
    "{\"ok\":"@ + flag_text(ready) + ",\"product\":"@ + (match product {
        Some(product) => product,
        None => "null"@,
    }) + ",\"service\":"@ + service + "}"@
}

/// The readiness document: whether the product is ready, what it says of itself, and
/// the service.
pub open spec fn readiness_text(
    service: Seq<char>,
    product: Option<serde_json::Value>,
    ready: bool,
) -> Seq<char> {
    readiness_members(ready, product_text(product), string_text(service))
}

/// The metric that says that the listener serves.
pub open spec fn up_metric(service: Seq<char>) -> Seq<char> {
    "# HELP ores_otel_sidecar_up Whether the sidecar probe listener is serving.\n"@
        + "# TYPE ores_otel_sidecar_up gauge\n"@ + "ores_otel_sidecar_up{service=\""@ + service
        + "\"} 1\n"@
}

/// How a request is answered, given what the product said and what was collected.
pub open spec fn answer(
    request: Request,
    identity: SidecarIdentity,
    product: Option<serde_json::Value>,
    ready: bool,
    resources: Option<ResourceSnapshot>,
) -> Answer {
    match request {
        Request::Reject(reject) => rejection(reject),
        Request::Accepted { route: Route::Healthz, .. } => Answer {
            code: 200,
            content_type: "application/json"@,
            body: (Health { ok: true, service: identity.service, product }).text() + "\n"@,
        },
        Request::Accepted { route: Route::Readyz, .. } => Answer {
            code: if ready {
                200
            } else {
                503
            },
            content_type: "application/json"@,
            body: readiness_text(identity.service@, product, ready) + "\n"@,
        },
        Request::Accepted { route: Route::Metrics, .. } => Answer {
            code: 200,
            content_type: "text/plain; version=0.0.4"@,
            body: up_metric(identity.service@) + resource_metrics(
                identity.service@,
                resources,
            ),
        },
    }
}

/// `response` says what `answer` says.
pub open spec fn gives(response: (u16, &'static str, String), answer: Answer) -> bool {
    &&& response.0 == answer.code
    &&& response.1@ == answer.content_type
    &&& response.2@ == answer.body
}

fn plain_response(code: u16, body: &'static str) -> (response: (u16, &'static str, String))
    ensures
        gives(response, plain(code, body@)),
{
    (code, "text/plain; charset=utf-8", body.to_owned())
}

fn rejection_response(reject: Reject) -> (response: (u16, &'static str, String))
    ensures
        gives(response, rejection(reject)),
{
    match reject {
        Reject::MethodNotAllowed => plain_response(405, "method not allowed\n"),
        Reject::NotFound => plain_response(404, "not found\n"),
        Reject::LineTooLong | Reject::HeaderTooLarge => plain_response(431, "request too large\n"),
        Reject::BodyNotAllowed => plain_response(400, "request body not allowed\n"),
        Reject::Invalid => plain_response(400, "bad request\n"),
    }
}

/// Put a readiness document together from the JSON texts of its members.
pub fn readiness_json(ready: bool, product: Option<&str>, service: &str) -> (text: String)
    ensures
        text@ == readiness_members(ready, json_member(product), service@),
{
    let shown: &str = match product {
        Some(product) => product,
        None => "null",
    };
    let text = append_text("{\"ok\":".to_owned(), flag_json(ready));
    let text = append_text(text, ",\"product\":");
    let text = append_text(text, shown);
    let text = append_text(text, ",\"service\":");
    let text = append_text(text, service);
    append_text(text, "}")
}

fn readiness(service: &str, product: &Option<serde_json::Value>, ready: bool) -> (text: String)
    ensures
        text@ == readiness_text(service@, *product, ready),
{
    let name = match string_json(service) {
        Ok(name) => name,
        Err(_) => return unwritable(),
    };
    match product {
        Some(product) => match document_json(product) {
            Ok(nested) => readiness_json(ready, Some(nested.as_str()), name.as_str()),
            Err(_) => unwritable(),
        },
        None => readiness_json(ready, None, name.as_str()),
    }
}

fn up_text(service: &str) -> (text: String)
    ensures
        text@ == up_metric(service@),
{
    let text =
        "# HELP ores_otel_sidecar_up Whether the sidecar probe listener is serving.\n".to_owned();
    let text = append_text(text, "# TYPE ores_otel_sidecar_up gauge\n");
    let text = append_text(text, "ores_otel_sidecar_up{service=\"");
    let text = append_text(text, service);
    append_text(text, "\"} 1\n")
}

/// Answer a request, given what the product said of itself and what was collected.
pub fn respond(
    request: Request,
    identity: SidecarIdentity,
    product: Option<serde_json::Value>,
    ready: bool,
    resources: &Option<ResourceSnapshot>,
) -> (response: (u16, &'static str, String))
    ensures
        gives(response, answer(request, identity, product, ready, *resources)),
{
    match request {
        Request::Reject(reject) => rejection_response(reject),
        Request::Accepted { route, .. } => match route {
            Route::Healthz => {
                let body = current(identity, product).to_json();
                (200, "application/json", append_text(body, "\n"))
            },
            Route::Readyz => {
                let body = readiness(identity.service, &product, ready);
                let code: u16 = if ready {
                    200
                } else {
                    503
                };
                (code, "application/json", append_text(body, "\n"))
            },
            Route::Metrics => {
                let collected = prometheus_text(identity.service, resources);
                let body = append_text(up_text(identity.service), collected.as_str());
                (200, "text/plain; version=0.0.4", body)
            },
        },
    }
}

/// Answer a request. The product is asked for its payload where the answer shows it,
/// and for its readiness only by `/readyz`.
pub fn response_for<P: ProductProbe + ?Sized>(
    request: Request,
    identity: SidecarIdentity,
    probe: &P,
    resources: &Option<ResourceSnapshot>,
) -> (response: (u16, &'static str, String))
    ensures
        match request {
            Request::Accepted { route: Route::Healthz, .. } => exists|
                product: Option<serde_json::Value>,
            | #[trigger] call_ensures(P::extra_health, (probe,), product) && gives(
                response,
                answer(request, identity, product, true, *resources),
            ),
            Request::Accepted { route: Route::Readyz, .. } => exists|
                product: Option<serde_json::Value>,
                ready: bool,
            | #[trigger] call_ensures(P::extra_health, (probe,), product)
                && #[trigger] call_ensures(P::ready, (probe,), ready) && gives(
                response,
                answer(request, identity, product, ready, *resources),
            ),
            _ => gives(response, answer(request, identity, None, true, *resources)),
        },
{
    match request {
        Request::Accepted { route: Route::Healthz, .. } => {
            let product = probe.extra_health();
            respond(request, identity, product, true, resources)
        },
        Request::Accepted { route: Route::Readyz, .. } => {
            let product = probe.extra_health();
            let ready = probe.ready();
            respond(request, identity, product, ready, resources)
        },
        _ => respond(request, identity, None, true, resources),
    }
}

/// The bytes of an answer on the wire. A `HEAD` request is answered without the body.
pub open spec fn wire_text(
    code: u16,
    content_type: Seq<char>,
    body: Seq<char>,
    head_only: bool,
) -> Seq<char> {
    let payload = if head_only {
        Seq::empty()
    } else {
        body
    };
    "HTTP/1.1 "@ + status_text(code) + "\r\ncontent-type: "@ + content_type
        + "\r\ncontent-length: "@ + decimal(byte_length(payload))
        + "\r\nconnection: close\r\ncache-control: no-store\r\nx-content-type-options: nosniff\r\nx-frame-options: DENY\r\ncontent-security-policy: default-src 'none'; connect-src 'self'\r\n\r\n"@
        + payload
}

/// Write an answer out.
pub fn write_http(code: u16, content_type: &str, body: &str, head_only: bool) -> (text: String)
    ensures
        text@ == wire_text(code, content_type@, body@, head_only),
{
    let payload = if head_only {
        ""
    } else {
        body
    };
    proof {
        reveal_strlit("");
        assert(""@ =~= Seq::<char>::empty());
    }
    let text = append_text("HTTP/1.1 ".to_owned(), status_line(code));
    let text = append_text(text, "\r\ncontent-type: ");
    let text = append_text(text, content_type);
    let text = append_text(text, "\r\ncontent-length: ");
    let text = append_text(text, decimal_text(byte_len(payload) as u64).as_str());
    let text = append_text(
        text,
        "\r\nconnection: close\r\ncache-control: no-store\r\nx-content-type-options: nosniff\r\nx-frame-options: DENY\r\ncontent-security-policy: default-src 'none'; connect-src 'self'\r\n\r\n",
    );
    append_text(text, payload)
}

/// Whether a request wants the head of its answer alone.
pub fn is_head_only(request: Request) -> (head_only: bool)
    ensures
        head_only == (request matches Request::Accepted { method: Method::Head, .. }),
{
    match request {
        Request::Accepted { method: Method::Head, .. } => true,
        _ => false,
    }
}

/// What the header block has established so far.
#[derive(Clone, Copy, Debug, PartialEq, Eq, Structural)]
pub struct Headers {
    pub count: usize,
    pub content_length: Option<u64>,
    pub saw_host: bool,
}

impl Default for Headers {
    fn default() -> (headers: Self)
        ensures
            headers == no_headers(),
    {
        Headers { count: 0, content_length: None, saw_host: false }
    }
}

/// Before the first header line.
pub open spec fn no_headers() -> Headers {
    Headers { count: 0, content_length: None, saw_host: false }
}

/// The length that a `content-length` line declares. What is no number declares the
/// largest one.
pub open spec fn declared_length(line: Seq<char>) -> Option<u64> {
    let lowered_line = lower(line);
    if starts_with(lowered_line, "content-length:"@) {
        match parsed_unsigned(
            trim(lowered_line.skip("content-length:"@.len() as int)),
            u64::MAX as nat,
        ) {
            Some(length) => Some(length as u64),
            None => Some(u64::MAX),
        }
    } else {
        None
    }
}

/// What one more header line makes of the block.
pub open spec fn with_header(headers: Headers, line: Seq<char>) -> Result<Headers, Reject> {
    let names_host = starts_with(lower(line), "host:"@);
    if line.contains('\0') || !line.contains(':') {
        Err(Reject::Invalid)
    } else if headers.count >= MAX_HEADERS {
        Err(Reject::HeaderTooLarge)
    } else if names_host && trim(after(line, ':')).len() == 0 {
        Err(Reject::Invalid)
    } else if starts_with(lower(line), "expect:"@) || starts_with(
        lower(line),
        "transfer-encoding:"@,
    ) {
        Err(Reject::BodyNotAllowed)
    } else if declared_length(line) is Some && headers.content_length is Some
        && headers.content_length != declared_length(line) {
        Err(Reject::Invalid)
    } else {
        Ok(
            Headers {
                count: (headers.count + 1) as usize,
                content_length: if declared_length(line) is Some {
                    declared_length(line)
                } else {
                    headers.content_length
                },
                saw_host: names_host || headers.saw_host,
            },
        )
    }
}

fn length_declared(lowered_line: &[char], line: &[char]) -> (length: Option<u64>)
    requires
        lowered_line@ == lower(line@),
    ensures
        length == declared_length(line@),
{
    if !has_prefix(lowered_line, "content-length:") {
        return None;
    }
    let name = chars_of("content-length:");
    let rest = slice_subrange(lowered_line, name.len(), lowered_line.len());
    assert(rest@ =~= lowered_line@.skip(name@.len() as int));
    match parse_unsigned(trimmed(rest), u64::MAX) {
        Some(length) => Some(length),
        None => Some(u64::MAX),
    }
}

impl Headers {
    /// Take one header line.
    pub fn with(self, line: &str) -> (outcome: Result<Self, Reject>)
        ensures
            outcome == with_header(self, line@),
    {
        let chars = chars_of(line);
        if contains_char(chars.as_slice(), '\0') || !contains_char(chars.as_slice(), ':') {
            return Err(Reject::Invalid);
        }
        if self.count >= MAX_HEADERS {
            return Err(Reject::HeaderTooLarge);
        }
        let lower_chars = lowered(chars.as_slice());
        let names_host = has_prefix(lower_chars.as_slice(), "host:");
        if names_host {
            let count: usize = chars.len();
            let colon = find_char(chars.as_slice(), ':');
            proof {
                lemma_position(chars@, ':');
                assert(colon < count);
            }
            let value = slice_subrange(chars.as_slice(), colon + 1, count);
            assert(value@ =~= after(chars@, ':'));
            if trimmed(value).len() == 0 {
                return Err(Reject::Invalid);
            }
        }
        if has_prefix(lower_chars.as_slice(), "expect:") || has_prefix(
            lower_chars.as_slice(),
            "transfer-encoding:",
        ) {
            return Err(Reject::BodyNotAllowed);
        }
        let declared = length_declared(lower_chars.as_slice(), chars.as_slice());
        let content_length = match declared {
            Some(length) => {
                if let Some(previous) = self.content_length {
                    if previous != length {
                        return Err(Reject::Invalid);
                    }
                }
                Some(length)
            },
            None => self.content_length,
        };
        Ok(
            Headers {
                count: self.count + 1,
                content_length,
                saw_host: names_host || self.saw_host,
            },
        )
    }
}

/// What an attempt to read one line gave. A line keeps its terminator.
#[derive(Debug, PartialEq, Eq)]
pub enum LineRead {
    /// The stream has ended.
    End,
    Line(String),
    /// The stream failed, or the line is no UTF-8.
    Failed,
}

/// How far the reading of one request has come.
#[derive(Debug, PartialEq, Eq)]
pub enum Reading {
    /// The request line is next.
    RequestLine,
    /// A header line, or the end of the header block, is next.
    HeaderLines { request: Request, http11: bool, headers: Headers },
    /// The request is known. `discard` bytes of a body may be read and dropped before
    /// the answer.
    Finished { request: Request, discard: u64 },
}

pub open spec fn rejected(reject: Reject) -> Reading {
    Reading::Finished { request: Request::Reject(reject), discard: 0 }
}

/// The line ends the header block.
pub open spec fn closes_block(line: Seq<char>) -> bool {
    line == "\r\n"@ || line == "\n"@
}

/// What the closed header block makes of a request.
pub open spec fn admitted(request: Request, http11: bool, headers: Headers) -> Reading {
    if request is Accepted && http11 && !headers.saw_host {
        rejected(Reject::Invalid)
    } else if headers.content_length matches Some(length) && length > 0 {
        Reading::Finished {
            request: Request::Reject(Reject::BodyNotAllowed),
            discard: if headers.content_length->0 < MAX_DISCARDED_BODY {
                headers.content_length->0
            } else {
                MAX_DISCARDED_BODY
            },
        }
    } else {
        Reading::Finished { request, discard: 0 }
    }
}

/// What one more line makes of the reading.
pub open spec fn read_on(reading: Reading, read: LineRead) -> Reading {
    match (reading, read) {
        (Reading::RequestLine, LineRead::Line(line)) => if byte_length(line@)
            > MAX_REQUEST_LINE {
            rejected(Reject::LineTooLong)
        } else {
            Reading::HeaderLines {
                request: classified(line@),
                http11: contains_text(line@, "HTTP/1.1"@),
                headers: no_headers(),
            }
        },
        (Reading::RequestLine, _) => rejected(Reject::Invalid),
        (Reading::HeaderLines { request, http11, headers }, LineRead::Line(line)) => if byte_length(
            line@,
        ) > MAX_HEADER_LINE {
            rejected(Reject::HeaderTooLarge)
        } else if closes_block(line@) {
            admitted(request, http11, headers)
        } else {
            match with_header(headers, line@) {
                Ok(headers) => Reading::HeaderLines { request, http11, headers },
                Err(reject) => rejected(reject),
            }
        },
        (Reading::HeaderLines { request, http11, headers }, LineRead::End) => admitted(
            request,
            http11,
            headers,
        ),
        (Reading::HeaderLines { .. }, LineRead::Failed) => rejected(Reject::Invalid),
        (Reading::Finished { .. }, _) => reading,
    }
}

fn close_block(request: Request, http11: bool, headers: Headers) -> (reading: Reading)
    ensures
        reading == admitted(request, http11, headers),
{
    let accepted = match request {
        Request::Accepted { .. } => true,
        Request::Reject(_) => false,
    };
    if accepted && http11 && !headers.saw_host {
        return Reading::Finished { request: Request::Reject(Reject::Invalid), discard: 0 };
    }
    match headers.content_length {
        Some(length) if length > 0 => Reading::Finished {
            request: Request::Reject(Reject::BodyNotAllowed),
            discard: if length < MAX_DISCARDED_BODY {
                length
            } else {
                MAX_DISCARDED_BODY
            },
        },
        _ => Reading::Finished { request, discard: 0 },
    }
}

impl Reading {
    /// Take what the next attempt to read a line gave.
    pub fn advance(self, read: LineRead) -> (next: Self)
        ensures
            next == read_on(self, read),
    {
        match (self, read) {
            (Reading::RequestLine, LineRead::Line(line)) => {
                if byte_len(line.as_str()) > MAX_REQUEST_LINE {
                    return Reading::Finished {
                        request: Request::Reject(Reject::LineTooLong),
                        discard: 0,
                    };
                }
                let chars = chars_of(line.as_str());
                Reading::HeaderLines {
                    request: classify_request_line(line.as_str()),
                    http11: has_part(chars.as_slice(), "HTTP/1.1"),
                    headers: Headers::default(),
                }
            },
            (Reading::RequestLine, _) => Reading::Finished {
                request: Request::Reject(Reject::Invalid),
                discard: 0,
            },
            (Reading::HeaderLines { request, http11, headers }, LineRead::Line(line)) => {
                if byte_len(line.as_str()) > MAX_HEADER_LINE {
                    return Reading::Finished {
                        request: Request::Reject(Reject::HeaderTooLarge),
                        discard: 0,
                    };
                }
                if same_text(line.as_str(), "\r\n") || same_text(line.as_str(), "\n") {
                    return close_block(request, http11, headers);
                }
                match headers.with(line.as_str()) {
                    Ok(headers) => Reading::HeaderLines { request, http11, headers },
                    Err(reject) => Reading::Finished {
                        request: Request::Reject(reject),
                        discard: 0,
                    },
                }
            },
            (Reading::HeaderLines { request, http11, headers }, LineRead::End) => close_block(
                request,
                http11,
                headers,
            ),
            (Reading::HeaderLines { .. }, LineRead::Failed) => Reading::Finished {
                request: Request::Reject(Reject::Invalid),
                discard: 0,
            },
            (finished, _) => finished,
        }
    }
}

/// The reading after some attempts to read a line.
pub open spec fn reading_after(reads: Seq<LineRead>) -> Reading
    decreases reads.len(),
{
    if reads.len() == 0 {
        Reading::RequestLine
    } else {
        read_on(reading_after(reads.drop_last()), reads.last())
    }
}

/// Why a probe has no status code.
#[derive(Clone, Copy, Debug, PartialEq, Eq, Structural)]
pub enum ProbeFault {
    UnsupportedPath,
    InvalidStatusLine,
}

impl ProbeFault {
    pub open spec fn text(self) -> Seq<char> {
        match self {
            ProbeFault::UnsupportedPath => "unsupported sidecar probe path"@,
            ProbeFault::InvalidStatusLine => "invalid sidecar probe status line"@,
        }
    }

    pub fn message(self) -> (text: &'static str)
        ensures
            text@ == self.text(),
    {
        match self {
            ProbeFault::UnsupportedPath => "unsupported sidecar probe path",
            ProbeFault::InvalidStatusLine => "invalid sidecar probe status line",
        }
    }
}

/// The health endpoints that may be probed.
pub open spec fn probe_path(path: Seq<char>) -> bool {
    path == "/healthz"@ || path == "/health"@ || path == "/readyz"@ || path == "/ready"@
}

/// The request of a one-shot probe of a fixed health endpoint.
pub fn probe_request(path: &str) -> (request: Result<String, ProbeFault>)
    ensures
        match request {
            Ok(text) => probe_path(path@) && text@ == "GET "@ + path@
                + " HTTP/1.1\r\nHost: 127.0.0.1\r\nConnection: close\r\n\r\n"@,
            Err(fault) => !probe_path(path@) && fault == ProbeFault::UnsupportedPath,
        },
{
    if !same_text(path, "/healthz") && !same_text(path, "/health") && !same_text(path, "/readyz")
        && !same_text(path, "/ready") {
        return Err(ProbeFault::UnsupportedPath);
    }
    let text = append_text("GET ".to_owned(), path);
    Ok(append_text(text, " HTTP/1.1\r\nHost: 127.0.0.1\r\nConnection: close\r\n\r\n"))
}

/// The status code of a status line: a supported version, then three digits.
pub open spec fn probed_status(line: Seq<char>) -> Result<u16, ProbeFault> {
    let bare = trim_line_end(line);
    let version = first_word(bare);
    let status = first_word(after_first_word(bare));
    if byte_length(line) == 0 || byte_length(line) > MAX_STATUS_LINE || bare.contains('\0')
        || bare.contains('\r') || !supported_version(version) || status.len() != 3 || !all_digits(
        status,
    ) {
        Err(ProbeFault::InvalidStatusLine)
    } else {
        Ok(digits_value(status) as u16)
    }
}

/// Three digits stay below a thousand.
proof fn lemma_three_digits(digits: Seq<char>)
    requires
        digits.len() == 3,
        all_digits(digits),
    ensures
        digits_value(digits) <= 999,
{
    reveal_with_fuel(digits_value, 4);
    assert(is_digit(digits[0]) && is_digit(digits[1]) && is_digit(digits[2]));
    let two = digits.drop_last();
    let one = two.drop_last();
    assert(two.last() == digits[1] && one.last() == digits[0]);
    assert(one.drop_last() =~= Seq::<char>::empty());
}

/// Read the status line that answers a probe.
pub fn probe_status(line: &str) -> (status: Result<u16, ProbeFault>)
    ensures
        status == probed_status(line@),
{
    let bytes = byte_len(line);
    if bytes == 0 || bytes > MAX_STATUS_LINE {
        return Err(ProbeFault::InvalidStatusLine);
    }
    let all = chars_of(line);
    let bare = without_line_end(all.as_slice());
    if contains_char(bare, '\0') || contains_char(bare, '\r') {
        return Err(ProbeFault::InvalidStatusLine);
    }
    let (version, rest) = split_word(bare);
    let (status, _) = split_word(rest);
    if (!chars_spell(version, "HTTP/1.0") && !chars_spell(version, "HTTP/1.1")) || status.len()
        != 3 {
        return Err(ProbeFault::InvalidStatusLine);
    }
    let mut i: usize = 0;
    while i < 3
        invariant
            i <= 3,
            status@.len() == 3,
            forall|j: int| 0 <= j < i ==> is_digit(#[trigger] status@[j]),
            status@ == first_word(after_first_word(bare@)),
            bare@ == trim_line_end(line@),
        decreases 3 - i,
    {
        if !('0' <= status[i] && status[i] <= '9') {
            assert(!is_digit(status@[i as int]));
            return Err(ProbeFault::InvalidStatusLine);
        }
        i = i + 1;
    }
    proof {
        lemma_three_digits(status@);
        assert(is_digit(status@[0]));
    }
    match parse_unsigned(status, 999) {
        Some(code) => Ok(code as u16),
        None => Err(ProbeFault::InvalidStatusLine),
    }
}

/// Whatever is accepted asks for one of the fixed endpoints, by an absolute path that can
/// be read in one way only, in a version that is served, on a bounded line.
pub proof fn law_only_fixed_endpoints_are_served(line: Seq<char>)
    requires
        classified(line) is Accepted,
    ensures
        ({
            let bare = trim_line_end(line);
            let words = split(bare, ' ');
            &&& byte_length(bare) <= MAX_REQUEST_LINE
            &&& words.len() == 3
            &&& words[0] == "GET"@ || words[0] == "HEAD"@
            &&& !ambiguous_path(words[1])
            &&& route_named(before(words[1], '?')) is Some
            &&& supported_version(words[2])
        }),
{
}

/// Reading a request takes boundedly many lines: the request line, the header lines,
/// and the line that closes or overflows their block.
pub proof fn law_reading_is_bounded(reads: Seq<LineRead>)
    ensures
        reading_after(reads) matches Reading::HeaderLines { headers, .. } ==> headers.count + 1
            == reads.len() && headers.count <= MAX_HEADERS,
        reading_after(reads) is RequestLine <==> reads.len() == 0,
        reads.len() > MAX_HEADERS + 1 ==> reading_after(reads) is Finished,
    decreases reads.len(),
{
    if reads.len() > 0 {
        law_reading_is_bounded(reads.drop_last());
    }
}

/// The reading ended with an accepted request.
pub open spec fn accepts(reading: Reading) -> bool {
    reading matches Reading::Finished { request, .. } && request is Accepted
}

/// The header block is closed by `read` and leaves nothing open: no body is declared, and
/// a host is named where HTTP/1.1 asks for one.
pub open spec fn closes_cleanly(reading: Reading, read: LineRead) -> bool {
    &&& match reading {
        Reading::HeaderLines { http11, headers, .. } => (http11 ==> headers.saw_host) && (
        headers.content_length is None || headers.content_length == Some(0u64)),
        _ => false,
    }
    &&& match read {
        LineRead::End => true,
        LineRead::Line(line) => closes_block(line@),
        LineRead::Failed => false,
    }
}

/// A request is accepted only when its header block has been closed cleanly, and then it
/// is what its request line says.
pub proof fn law_accepted_requests_are_complete(reads: Seq<LineRead>)
    requires
        accepts(reading_after(reads)),
    ensures
        reading_after(reads)->discard == 0,
        reads[0] matches LineRead::Line(line) && (reading_after(reads) matches Reading::Finished {
            request,
            ..
        } ==> request == classified(line@)),
        exists|n: int|
            0 < n < reads.len() && #[trigger] closes_cleanly(
                reading_after(reads.take(n)),
                reads[n],
            ),
    decreases reads.len(),
{
    lemma_request_is_kept(reads.drop_last());
    let before = reading_after(reads.drop_last());
    if before is Finished {
        law_accepted_requests_are_complete(reads.drop_last());
        let n = choose|n: int|
            0 < n < reads.len() - 1 && #[trigger] closes_cleanly(
                reading_after(reads.drop_last().take(n)),
                reads.drop_last()[n],
            );
        assert(reads.drop_last().take(n) =~= reads.take(n));
        assert(closes_cleanly(reading_after(reads.take(n)), reads[n]));
    } else {
        let n = reads.len() - 1;
        assert(reads.take(n) =~= reads.drop_last());
        law_reading_is_bounded(reads.drop_last());
        assert(closes_cleanly(reading_after(reads.take(n)), reads[n]));
    }
}

proof fn lemma_request_is_kept(reads: Seq<LineRead>)
    ensures
        reading_after(reads) matches Reading::HeaderLines { request, .. } ==> reads.len() > 0 && (
        reads[0] matches LineRead::Line(line) && request == classified(line@)),
    decreases reads.len(),
{
    if reads.len() > 0 {
        lemma_request_is_kept(reads.drop_last());
        law_reading_is_bounded(reads.drop_last());
        if reads.len() > 1 {
            assert(reads.drop_last()[0] == reads[0]);
        }
    }
}

/// A header that announces a body or an intermediate answer is refused wherever it
/// stands, and so is a second length that differs from the first.
pub proof fn law_bodies_are_refused(headers: Headers, line: Seq<char>)
    ensures
        starts_with(lower(line), "transfer-encoding:"@) || starts_with(lower(line), "expect:"@)
            ==> with_header(headers, line) is Err,
        declared_length(line) is Some && headers.content_length is Some && declared_length(line)
            != headers.content_length ==> with_header(headers, line) is Err,
        declared_length(line) matches Some(length) && length > 0 ==> (with_header(headers, line)
            matches Ok(next) ==> forall|request: Request, http11: bool|
            !accepts(#[trigger] admitted(request, http11, next))),
{
}

/// The answer to a `HEAD` request is the head of the answer without a body.
pub proof fn law_head_has_no_body(code: u16, content_type: Seq<char>, body: Seq<char>)
    ensures
        wire_text(code, content_type, body, true) == wire_text(
            code,
            content_type,
            Seq::empty(),
            false,
        ),
{
}

/// Readiness decides the code of `/readyz`, and of nothing else.
pub proof fn law_unready_is_unavailable(
    request: Request,
    identity: SidecarIdentity,
    product: Option<serde_json::Value>,
    ready: bool,
    resources: Option<ResourceSnapshot>,
)
    ensures
        answer(request, identity, product, ready, resources).code == 503 <==> !ready && (
        request matches Request::Accepted { route: Route::Readyz, .. }),
        answer(request, identity, product, ready, resources).code == 200 <==> request is Accepted
            && (ready || !(request matches Request::Accepted { route: Route::Readyz, .. })),
{
}

/// How a request line is classified, by its three words and its length. A line that is too
/// long is refused for that before anything else, then one with a stray control character;
/// then the method decides, then the form of the line, then the path.
pub proof fn law_how_request_lines_are_classified(line: Seq<char>)
    ensures
        ({
            let bare = trim_line_end(line);
            let words = split(bare, ' ');
            let short = byte_length(bare) <= 2048;
            let clean = !bare.contains('\0') && !bare.contains('\r');
            let method = words[0] == "GET"@ || words[0] == "HEAD"@;
            let formed = words.len() == 3 && words[1].len() > 0 && (words[2] == "HTTP/1.0"@
                || words[2] == "HTTP/1.1"@);
            let plain_path = !words[1].contains('%') && !words[1].contains('\\')
                && !words[1].contains('\t') && !contains_text(words[1], ".."@) && starts_with(
                words[1],
                "/"@,
            );
            let path = before(words[1], '?');
            let health = path == "/healthz"@ || path == "/health"@;
            let readiness = path == "/readyz"@ || path == "/ready"@;
            let metrics = path == "/metrics"@;
            let asks = short && clean && method && formed;
            let rejects = |reject: Reject| classified(line) == Request::Reject(reject);
            &&& !short <==> rejects(Reject::LineTooLong)
            &&& short && clean && words[0].len() > 0 && !method <==> rejects(
                Reject::MethodNotAllowed,
            )
            &&& short && (!clean || words[0].len() == 0 || (method && !formed)) <==> rejects(
                Reject::Invalid,
            )
            &&& asks && !(plain_path && (health || readiness || metrics)) <==> rejects(
                Reject::NotFound,
            )
            &&& asks && plain_path && (health || readiness || metrics) ==> (classified(
                line,
            ) matches Request::Accepted { method: verb, route } && (verb == Method::Get
                <==> words[0] == "GET"@) && (route == Route::Healthz <==> health) && (route
                == Route::Readyz <==> readiness) && (route == Route::Metrics <==> metrics))
        }),
{
    reveal_strlit("GET");
    reveal_strlit("HEAD");
    reveal_strlit("/healthz");
    reveal_strlit("/health");
    reveal_strlit("/readyz");
    reveal_strlit("/ready");
    reveal_strlit("/metrics");
    assert("/healthz"@[1] == 'h' && "/health"@[1] == 'h');
    assert("/readyz"@[1] == 'r' && "/ready"@[1] == 'r' && "/metrics"@[1] == 'm');
    assert("GET"@.len() == 3 && "HEAD"@.len() == 4);
    lemma_split_is_never_empty(trim_line_end(line), ' ');
}

proof fn lemma_split_is_never_empty(s: Seq<char>, c: char)
    ensures
        split(s, c).len() >= 1,
{
    crate::text::law_before_and_after(s, c);
    if s.contains(c) {
        crate::text::law_split(before(s, c), c, after(s, c));
    } else {
        crate::text::law_split(s, c, s);
    }
}

proof fn lemma_line_end_is_taken(bare: Seq<char>, ending: Seq<char>)
    requires
        forall|k: int| 0 <= k < ending.len() ==> #[trigger] ending[k] == '\r' || ending[k] == '\n',
        bare.len() > 0 ==> bare.last() != '\r' && bare.last() != '\n',
    ensures
        trim_line_end(bare + ending) == bare,
{
    let line = bare + ending;
    crate::text::law_trim_line_end(line);
    let left = trim_line_end(line);
    if left.len() < bare.len() {
        assert(line[bare.len() - 1] == bare.last());
    }
    if left.len() > bare.len() {
        assert(left.last() == line[left.len() - 1]);
        assert(line[left.len() - 1] == ending[left.len() - 1 - bare.len()]);
    }
    assert(left =~= bare);
}

/// A request for one of the endpoints, with or without a query and by either method and
/// version, is accepted for what it names, whatever ends its line.
pub proof fn law_requests_for_endpoints_are_accepted(
    method: Seq<char>,
    path: Seq<char>,
    query: Option<Seq<char>>,
    version: Seq<char>,
    ending: Seq<char>,
)
    requires
        method == "GET"@ || method == "HEAD"@,
        path == "/healthz"@ || path == "/health"@ || path == "/readyz"@ || path == "/ready"@ || path
            == "/metrics"@,
        version == "HTTP/1.0"@ || version == "HTTP/1.1"@,
        forall|k: int| 0 <= k < ending.len() ==> #[trigger] ending[k] == '\r' || ending[k] == '\n',
        ({
            let target = match query {
                Some(query) => path + "?"@ + query,
                None => path,
            };
            &&& !target.contains(' ') && !target.contains('\0') && !target.contains('\r')
            &&& !target.contains('%') && !target.contains('\\') && !target.contains('\t')
            &&& !contains_text(target, ".."@)
            &&& byte_length(method + " "@ + target + " "@ + version) <= 2048
        }),
    ensures
        ({
            let target = match query {
                Some(query) => path + "?"@ + query,
                None => path,
            };
            let request = classified(method + " "@ + target + " "@ + version + ending);
            &&& request is Accepted
            &&& request matches Request::Accepted { method: verb, route } ==> {
                &&& verb == Method::Get <==> method == "GET"@
                &&& route == Route::Healthz <==> path == "/healthz"@ || path == "/health"@
                &&& route == Route::Readyz <==> path == "/readyz"@ || path == "/ready"@
                &&& route == Route::Metrics <==> path == "/metrics"@
            }
        }),
{
    reveal_strlit("GET");
    reveal_strlit("HEAD");
    reveal_strlit("/healthz");
    reveal_strlit("/health");
    reveal_strlit("/readyz");
    reveal_strlit("/ready");
    reveal_strlit("/metrics");
    reveal_strlit("HTTP/1.0");
    reveal_strlit("HTTP/1.1");
    reveal_strlit(" ");
    reveal_strlit("?");
    reveal_strlit("/");
    let target = match query {
        Some(query) => path + "?"@ + query,
        None => path,
    };
    let bare = method + " "@ + target + " "@ + version;
    let line = bare + ending;
    assert(bare.last() == version.last());
    lemma_line_end_is_taken(bare, ending);
    assert(!method.contains(' ') && !method.contains('\0') && !method.contains('\r'));
    assert(!version.contains(' ') && !version.contains('\0') && !version.contains('\r'));
    assert(!path.contains('?'));
    lemma_words_of_request(method, target, version);
    lemma_clean_request(method, target, version);
    assert(target.take(1) =~= "/"@) by {
        assert(target[0] == path[0]);
    }
    match query {
        Some(query) => {
            assert(target =~= path + seq!['?'] + query);
            crate::text::law_split(path, '?', query);
        },
        None => {
            crate::text::law_before_and_after(path, '?');
        },
    }
    law_how_request_lines_are_classified(line);
}

proof fn lemma_words_of_request(method: Seq<char>, target: Seq<char>, version: Seq<char>)
    requires
        !method.contains(' '),
        !target.contains(' '),
        !version.contains(' '),
    ensures
        split(method + " "@ + target + " "@ + version, ' ') == seq![method, target, version],
{
    reveal_strlit(" ");
    let rest = target + seq![' '] + version;
    assert(method + " "@ + target + " "@ + version =~= method + seq![' '] + rest);
    crate::text::law_split(method, ' ', rest);
    crate::text::law_split(target, ' ', version);
    crate::text::law_split(version, ' ', version);
    assert(split(method + seq![' '] + rest, ' ') =~= seq![method, target, version]);
}

proof fn lemma_clean_request(method: Seq<char>, target: Seq<char>, version: Seq<char>)
    requires
        !method.contains('\0') && !method.contains('\r'),
        !target.contains('\0') && !target.contains('\r'),
        !version.contains('\0') && !version.contains('\r'),
    ensures
        !(method + " "@ + target + " "@ + version).contains('\0'),
        !(method + " "@ + target + " "@ + version).contains('\r'),
{
    reveal_strlit(" ");
    let bare = method + " "@ + target + " "@ + version;
    let a = method.len() as int;
    let b = a + 1 + target.len();
    assert forall|i: int| 0 <= i < bare.len() implies bare[i] != '\0' && bare[i] != '\r' by {
        if i < a {
            assert(bare[i] == method[i]);
            assert(method.contains(method[i]));
        } else if i == a {
            assert(bare[i] == ' ');
        } else if i < b {
            assert(bare[i] == target[i - a - 1]);
            assert(target.contains(target[i - a - 1]));
        } else if i == b {
            assert(bare[i] == ' ');
        } else {
            assert(bare[i] == version[i - b - 1]);
            assert(version.contains(version[i - b - 1]));
        }
    }
}

/// The reason phrase of every code that is answered.
pub proof fn law_status_lines(code: u16)
    ensures
        status_text(200) == "200 OK"@,
        status_text(400) == "400 Bad Request"@,
        status_text(404) == "404 Not Found"@,
        status_text(405) == "405 Method Not Allowed"@,
        status_text(413) == "413 Payload Too Large"@,
        status_text(431) == "431 Request Header Fields Too Large"@,
        status_text(503) == "503 Service Unavailable"@,
        code != 200 && code != 400 && code != 404 && code != 405 && code != 413 && code != 431
            && code != 503 ==> status_text(code) == "500 Internal Server Error"@,
{
}

/// A rejected request is answered by what is wrong with it alone: not by the service, the
/// product, its readiness or its resources. What is too long in one way is answered as what is
/// too long in another.
pub proof fn law_how_rejections_are_answered(
    reject: Reject,
    identity: SidecarIdentity,
    product: Option<serde_json::Value>,
    ready: bool,
    resources: Option<ResourceSnapshot>,
)
    ensures
        ({
            let given = answer(Request::Reject(reject), identity, product, ready, resources);
            &&& given.content_type == "text/plain; charset=utf-8"@
            &&& match reject {
                Reject::MethodNotAllowed => given.code == 405 && given.body
                    == "method not allowed\n"@,
                Reject::NotFound => given.code == 404 && given.body == "not found\n"@,
                Reject::LineTooLong => given.code == 431 && given.body == "request too large\n"@,
                Reject::HeaderTooLarge => given.code == 431 && given.body
                    == "request too large\n"@,
                Reject::BodyNotAllowed => given.code == 400 && given.body
                    == "request body not allowed\n"@,
                Reject::Invalid => given.code == 400 && given.body == "bad request\n"@,
            }
        }),
{
}

/// How `/healthz` is answered: that the sidecar runs, its name, and what the product says of
/// itself where it says something. Readiness has no part in it.
pub proof fn law_how_health_is_answered(
    method: Method,
    identity: SidecarIdentity,
    product: serde_json::Value,
    ready: bool,
    resources: Option<ResourceSnapshot>,
)
    ensures
        ({
            let request = Request::Accepted { method, route: Route::Healthz };
            let opening = "{\"ok\":true,\"service\":"@ + string_text(identity.service@);
            let silent = answer(request, identity, None, ready, resources);
            let speaking = answer(request, identity, Some(product), ready, resources);
            &&& silent.code == 200 && speaking.code == 200
            &&& silent.content_type == "application/json"@ && speaking.content_type
                == "application/json"@
            &&& silent.body == opening + "}\n"@
            &&& speaking.body == opening + ",\"product\":"@
                + crate::json::document_text(product) + "}\n"@
        }),
{
    lemma_document_literals();
    let name = string_text(identity.service@);
    let said = crate::json::document_text(product);
    let request = Request::Accepted { method, route: Route::Healthz };
    assert(answer(request, identity, None, ready, resources).body
        =~= "{\"ok\":true,\"service\":"@ + name + "}\n"@);
    assert(answer(request, identity, Some(product), ready, resources).body
        =~= "{\"ok\":true,\"service\":"@ + name + ",\"product\":"@ + said + "}\n"@);
}

proof fn lemma_document_literals()
    ensures
        "{\"ok\":"@ + "true"@ + ",\"service\":"@ == "{\"ok\":true,\"service\":"@,
        "{\"ok\":"@ + "true"@ + ",\"product\":"@ == "{\"ok\":true,\"product\":"@,
        "{\"ok\":"@ + "false"@ + ",\"product\":"@ == "{\"ok\":false,\"product\":"@,
        "}"@ + "\n"@ == "}\n"@,
{
    reveal_strlit("{\"ok\":");
    reveal_strlit("true");
    reveal_strlit("false");
    reveal_strlit(",\"service\":");
    reveal_strlit(",\"product\":");
    reveal_strlit("{\"ok\":true,\"service\":");
    reveal_strlit("{\"ok\":true,\"product\":");
    reveal_strlit("{\"ok\":false,\"product\":");
    reveal_strlit("}");
    reveal_strlit("\n");
    reveal_strlit("}\n");
    assert("{\"ok\":"@ + "true"@ + ",\"service\":"@ =~= "{\"ok\":true,\"service\":"@);
    assert("{\"ok\":"@ + "true"@ + ",\"product\":"@ =~= "{\"ok\":true,\"product\":"@);
    assert("{\"ok\":"@ + "false"@ + ",\"product\":"@ =~= "{\"ok\":false,\"product\":"@);
    assert("}"@ + "\n"@ =~= "}\n"@);
}

/// How `/readyz` is answered: whether the product is ready, in the code and in the document,
/// what it says of itself or null, and the name of the sidecar.
pub proof fn law_how_readiness_is_answered(
    method: Method,
    identity: SidecarIdentity,
    product: Option<serde_json::Value>,
    resources: Option<ResourceSnapshot>,
)
    ensures
        ({
            let request = Request::Accepted { method, route: Route::Readyz };
            let said = match product {
                Some(product) => crate::json::document_text(product),
                None => "null"@,
            };
            let closing = ",\"service\":"@ + string_text(identity.service@) + "}\n"@;
            let up = answer(request, identity, product, true, resources);
            let down = answer(request, identity, product, false, resources);
            &&& up.code == 200 && down.code == 503
            &&& up.content_type == "application/json"@ && down.content_type
                == "application/json"@
            &&& up.body == "{\"ok\":true,\"product\":"@ + said + closing
            &&& down.body == "{\"ok\":false,\"product\":"@ + said + closing
        }),
{
    lemma_document_literals();
    let request = Request::Accepted { method, route: Route::Readyz };
    let said = match product {
        Some(product) => crate::json::document_text(product),
        None => "null"@,
    };
    let closing = ",\"service\":"@ + string_text(identity.service@) + "}\n"@;
    assert(answer(request, identity, product, true, resources).body
        =~= "{\"ok\":true,\"product\":"@ + said + closing);
    assert(answer(request, identity, product, false, resources).body
        =~= "{\"ok\":false,\"product\":"@ + said + closing);
}

/// How `/metrics` is answered: that the listener of this service serves, and then everything
/// that was collected, the product having no part in it.
pub proof fn law_how_metrics_are_answered(
    method: Method,
    identity: SidecarIdentity,
    product: Option<serde_json::Value>,
    ready: bool,
    resources: Option<ResourceSnapshot>,
)
    ensures
        ({
            let given = answer(
                Request::Accepted { method, route: Route::Metrics },
                identity,
                product,
                ready,
                resources,
            );
            &&& given.code == 200
            &&& given.content_type == "text/plain; version=0.0.4"@
            &&& given.body
                == "# HELP ores_otel_sidecar_up Whether the sidecar probe listener is serving.\n# TYPE ores_otel_sidecar_up gauge\nores_otel_sidecar_up{service=\""@
                + identity.service@ + "\"} 1\n"@ + resource_metrics(identity.service@, resources)
        }),
{
    reveal_strlit(
        "# HELP ores_otel_sidecar_up Whether the sidecar probe listener is serving.\n# TYPE ores_otel_sidecar_up gauge\nores_otel_sidecar_up{service=\"",
    );
    reveal_strlit("# HELP ores_otel_sidecar_up Whether the sidecar probe listener is serving.\n");
    reveal_strlit("# TYPE ores_otel_sidecar_up gauge\n");
    reveal_strlit("ores_otel_sidecar_up{service=\"");
    assert("# HELP ores_otel_sidecar_up Whether the sidecar probe listener is serving.\n"@
        + "# TYPE ores_otel_sidecar_up gauge\n"@ + "ores_otel_sidecar_up{service=\""@
        =~= "# HELP ores_otel_sidecar_up Whether the sidecar probe listener is serving.\n# TYPE ores_otel_sidecar_up gauge\nores_otel_sidecar_up{service=\""@);
}

/// An answer on the wire is its head and then its body, untouched. The head gives the code,
/// the content type and the length of the body in bytes, closes the connection and forbids
/// what a browser could do with the answer.
pub proof fn law_answers_on_the_wire(code: u16, content_type: Seq<char>, body: Seq<char>)
    ensures
        wire_text(code, content_type, body, false) == "HTTP/1.1 "@ + status_text(code)
            + "\r\ncontent-type: "@ + content_type + "\r\ncontent-length: "@ + decimal(
            byte_length(body),
        )
            + "\r\nconnection: close\r\ncache-control: no-store\r\nx-content-type-options: nosniff\r\nx-frame-options: DENY\r\ncontent-security-policy: default-src 'none'; connect-src 'self'\r\n\r\n"@
            + body,
        wire_text(code, content_type, body, true) == "HTTP/1.1 "@ + status_text(code)
            + "\r\ncontent-type: "@ + content_type + "\r\ncontent-length: "@ + "0"@
            + "\r\nconnection: close\r\ncache-control: no-store\r\nx-content-type-options: nosniff\r\nx-frame-options: DENY\r\ncontent-security-policy: default-src 'none'; connect-src 'self'\r\n\r\n"@,
{
    let none = Seq::<char>::empty();
    crate::text::law_byte_length(none);
    reveal_strlit("0");
    assert(decimal(0) =~= "0"@) by {
        crate::text::law_decimal(0);
        assert(decimal(0).len() == 1) by {
            reveal_with_fuel(decimal, 2);
        }
        assert(decimal(0)[0] == '0') by {
            assert(crate::text::digit(0) == '0');
        }
    }
    assert(wire_text(code, content_type, body, true) =~= "HTTP/1.1 "@ + status_text(code)
        + "\r\ncontent-type: "@ + content_type + "\r\ncontent-length: "@ + "0"@
        + "\r\nconnection: close\r\ncache-control: no-store\r\nx-content-type-options: nosniff\r\nx-frame-options: DENY\r\ncontent-security-policy: default-src 'none'; connect-src 'self'\r\n\r\n"@);
}

/// What a header line does to a block: it is refused where it is no header, where the block is
/// full, where it names an empty host, announces a body or an intermediate answer, or declares
/// another length than before; and otherwise it counts as one more, and what it says of the
/// host and the length is kept, its name being read in capital and small letters alike.
pub proof fn law_what_a_header_line_does(headers: Headers, line: Seq<char>)
    ensures
        ({
            let outcome = with_header(headers, line);
            let small = lower(line);
            let header = line.contains(':') && !line.contains('\0');
            let room = headers.count < 32;
            let host = starts_with(small, "host:"@);
            let nameless = host && trim(after(line, ':')).len() == 0;
            let announces = starts_with(small, "expect:"@) || starts_with(
                small,
                "transfer-encoding:"@,
            );
            let length = declared_length(line);
            let conflict = length is Some && headers.content_length is Some && length->0
                != headers.content_length->0;
            let refused = |reject: Reject| outcome == Err::<Headers, Reject>(reject);
            &&& !header ==> refused(Reject::Invalid)
            &&& header && !room ==> refused(Reject::HeaderTooLarge)
            &&& header && room && nameless ==> refused(Reject::Invalid)
            &&& header && room && !nameless && announces ==> refused(Reject::BodyNotAllowed)
            &&& header && room && !nameless && !announces && conflict ==> refused(Reject::Invalid)
            &&& header && room && !nameless && !announces && !conflict ==> (outcome matches Ok(next)
                && next.count == headers.count + 1 && (next.saw_host <==> headers.saw_host || host)
                && (length is Some ==> next.content_length == length) && (length is None
                ==> next.content_length == headers.content_length))
        }),
{
}

/// The length that a line declares is the number behind its name, whitespace around it left
/// aside; what is no number up to the largest one declares the largest.
pub proof fn law_declared_lengths(line: Seq<char>)
    ensures
        ({
            let small = lower(line);
            let digits = trim(small.skip("content-length:"@.len() as int));
            let number = parsed_unsigned(digits, 0xffff_ffff_ffff_ffff);
            &&& !starts_with(small, "content-length:"@) ==> declared_length(line) is None
            &&& starts_with(small, "content-length:"@) && number is Some ==> (declared_length(
                line,
            ) matches Some(length) && length == number->0)
            &&& starts_with(small, "content-length:"@) && number is None ==> declared_length(line)
                == Some(0xffff_ffff_ffff_ffffu64)
        }),
{
    crate::text::law_parsed_unsigned(
        0,
        0xffff_ffff_ffff_ffff,
        trim(lower(line).skip("content-length:"@.len() as int)),
    );
}

/// What the end of the header block makes of a request: an accepted one of HTTP/1.1 needs a
/// host, a declared body refuses every request, and else it is what its line says. Of a body
/// no more is read than it has, and no more than 64 bytes.
pub proof fn law_what_the_end_of_the_block_does(
    request: Request,
    http11: bool,
    headers: Headers,
)
    ensures
        ({
            let body = match headers.content_length {
                Some(length) => length,
                None => 0,
            };
            let hostless = request is Accepted && http11 && !headers.saw_host;
            let end = admitted(request, http11, headers);
            &&& hostless ==> end == (Reading::Finished {
                request: Request::Reject(Reject::Invalid),
                discard: 0,
            })
            &&& !hostless && body == 0 ==> end == (Reading::Finished { request, discard: 0 })
            &&& !hostless && body > 0 ==> (end matches Reading::Finished {
                request: refused,
                discard,
            } && refused == Request::Reject(Reject::BodyNotAllowed) && discard <= 64 && discard
                <= body && (discard == 64 || discard == body))
        }),
{
}

/// What each line does to the reading of a request.
pub proof fn law_what_a_line_does(
    line: String,
    request: Request,
    http11: bool,
    headers: Headers,
    finished: Request,
    discard: u64,
    read: LineRead,
)
    ensures
        ({
            let text = line@;
            let opening = read_on(Reading::RequestLine, LineRead::Line(line));
            let block = Reading::HeaderLines { request, http11, headers };
            let after = read_on(block, LineRead::Line(line));
            let rejected_as = |reject: Reject| Reading::Finished {
                request: Request::Reject(reject),
                discard: 0,
            };
            let closes = text == "\r\n"@ || text == "\n"@;
            &&& byte_length(text) > 2048 ==> opening == rejected_as(Reject::LineTooLong)
            &&& byte_length(text) <= 2048 ==> (opening matches Reading::HeaderLines {
                request: asked,
                http11: newer,
                headers: none,
            } && asked == classified(text) && (newer <==> contains_text(text, "HTTP/1.1"@))
                && none.count == 0 && none.content_length is None && !none.saw_host)
            &&& read_on(Reading::RequestLine, LineRead::End) == rejected_as(Reject::Invalid)
            &&& read_on(Reading::RequestLine, LineRead::Failed) == rejected_as(Reject::Invalid)
            &&& byte_length(text) > 1024 ==> after == rejected_as(Reject::HeaderTooLarge)
            &&& byte_length(text) <= 1024 && closes ==> after == admitted(request, http11, headers)
            &&& byte_length(text) <= 1024 && !closes ==> match with_header(headers, text) {
                Ok(next) => after == (Reading::HeaderLines { request, http11, headers: next }),
                Err(reject) => after == rejected_as(reject),
            }
            &&& read_on(block, LineRead::End) == admitted(request, http11, headers)
            &&& read_on(block, LineRead::Failed) == rejected_as(Reject::Invalid)
            &&& read_on(Reading::Finished { request: finished, discard }, read) == (
            Reading::Finished { request: finished, discard })
        }),
{
}

/// The endpoints that may be probed are the four that tell health and readiness.
pub proof fn law_what_may_be_probed(path: Seq<char>)
    ensures
        probe_path(path) <==> path == "/healthz"@ || path == "/health"@ || path == "/readyz"@
            || path == "/ready"@,
{
}

/// A status line of a served version and three digits gives the number that they spell,
/// whatever stands behind them; nothing else gives a status.
pub proof fn law_probed_statuses(line: Seq<char>)
    ensures
        ({
            let bare = trim_line_end(line);
            let version = first_word(bare);
            let status = first_word(after_first_word(bare));
            let sound = 1 <= byte_length(line) <= 256 && !bare.contains('\0') && !bare.contains(
                '\r',
            ) && (version == "HTTP/1.0"@ || version == "HTTP/1.1"@) && status.len() == 3
                && all_digits(status);
            &&& sound ==> (probed_status(line) matches Ok(code) && code == digits_value(status)
                && code <= 999)
            &&& !sound ==> probed_status(line) == Err::<u16, ProbeFault>(
                ProbeFault::InvalidStatusLine,
            )
        }),
{
    let status = first_word(after_first_word(trim_line_end(line)));
    if status.len() == 3 && all_digits(status) {
        lemma_three_digits(status);
    }
}

/// What gives an answer has its code, its type and its body.
pub proof fn law_responses_are_their_answers(
    response: (u16, &'static str, String),
    answer: Answer,
)
    requires
        gives(response, answer),
    ensures
        response.0 == answer.code,
        response.1@ == answer.content_type,
        response.2@ == answer.body,
{
}

} // verus!
