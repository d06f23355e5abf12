use device_agent::client_logic::ReturnChanResult;
use device_agent::http_server::cmd::{
    mail_op, mailbox_next, make_request, not_connected, send_pulse, Awaited,
};
use device_agent::http_server::events::{
    first_event, keep_alive, keep_alive_due, notification, split_lines,
};
use device_agent::http_server::headers::Headers;
use device_agent::http_server::request::{
    body_read_failed, empty_request, parse_body, parse_header_line, parse_request_body,
    parse_request_headers, parse_request_line, read_failure, skips_validation,
    split_whitespace, validate_headers, with_body, LineReader, LineStep, Method, Progress,
    RequestParser,
};
use device_agent::http_server::response::{FailureResp, Resp, StatusCode};
use device_agent::http_server::router::{is_valid_pulse_name, route, Action};
use device_agent::moonlight_socket::IoFailure;
use device_agent::protocol::{MailAckType, PulseType};
use device_agent::server_resp::Mail;

fn header_list(r: &Resp) -> Vec<(String, String)> {
    let h = r.headers();
    (0..h.len())
        .map(|i| (h.name_at(i).to_string(), h.value_at(i).to_string()))
        .collect()
}

#[test]
fn test_status_lines() {
    assert_eq!(StatusCode::Success.to_http(), "200 OK");
    assert_eq!(StatusCode::BadRequest.to_http(), "400 Bad Request");
    assert_eq!(StatusCode::Unauthorized.to_http(), "401 Unauthorized");
    assert_eq!(StatusCode::Forbidden.to_http(), "403 Forbidden");
    assert_eq!(StatusCode::NotFound.to_http(), "404 Not Found");
    assert_eq!(StatusCode::Timeout.to_http(), "408 Request Timeout");
    assert_eq!(
        StatusCode::VersionNotSupported.to_http(),
        "505 HTTP Version Not Supported"
    );
    assert_eq!(
        StatusCode::InternalServerError.to_http(),
        "500 Internal Server Error"
    );
}

#[test]
fn test_response_default_headers() {
    let r = Resp::ok("{}");
    assert_eq!(r.status_code(), StatusCode::Success);
    assert_eq!(r.body(), "{}");
    assert!(!r.is_event_stream);
    let expected: Vec<(String, String)> = [
        ("Cache-Control", "no-cache"),
        ("Connection", "close"),
        ("Content-Type", "application/json; charset=utf-8"),
        ("X-Powered-By", "Fostrom"),
        ("X-API-Version", "1"),
        ("X-Protocol", "Moonlight"),
        ("X-Protocol-Version", "1"),
        ("Server", "Fostrom-Device-Agent/v0.1.0"),
        ("X-Agent-Version", "0.1.0"),
    ]
    .iter()
    .map(|(k, v)| (k.to_string(), v.to_string()))
    .collect();
    assert_eq!(header_list(&r), expected);
    assert_eq!(r.header("X-Protocol"), Some("Moonlight"));
    assert_eq!(r.header("x-protocol"), None);
}

#[test]
fn test_response_headers_replace_in_place() {
    let mut r = Resp::new(StatusCode::NotFound, "");
    r.add_header("Connection", "keep-alive")
        .add_header("X-New", "1")
        .set_body("body");
    assert_eq!(r.header("Connection"), Some("keep-alive"));
    assert_eq!(header_list(&r)[1].0, "Connection");
    assert_eq!(header_list(&r).len(), 10);
    assert_eq!(header_list(&r)[9], ("X-New".to_string(), "1".to_string()));
    assert_eq!(r.body(), "body");

    let e = Resp::event_stream();
    assert!(e.is_event_stream);
    assert_eq!(
        e.header("Content-Type"),
        Some("text/event-stream; charset=utf-8")
    );
    assert_eq!(e.header("Connection"), Some("keep-alive"));
    assert_eq!(e.header("X-Accel-Buffering"), Some("no"));
    assert_eq!(e.body(), "");
}

#[test]
fn test_response_compile() {
    let mut r = FailureResp::not_found("Not \"Found\"");
    assert_eq!(r.body(), "{\"error\":\"Not \\\"Found\\\"\"}");
    r.add_header("X-Evil", "a\r\nSet-Cookie: b\n");
    let text = r.compile(true, "DEVICE0001", "FLEET001", 784111777);
    let expected = "HTTP/1.1 404 Not Found\r\n\
        Cache-Control: no-cache\r\n\
        Connection: close\r\n\
        Content-Type: application/json; charset=utf-8\r\n\
        X-Powered-By: Fostrom\r\n\
        X-API-Version: 1\r\n\
        X-Protocol: Moonlight\r\n\
        X-Protocol-Version: 1\r\n\
        Server: Fostrom-Device-Agent/v0.1.0\r\n\
        X-Agent-Version: 0.1.0\r\n\
        X-Evil: a  Set-Cookie: b \r\n\
        X-Connected: true\r\n\
        X-Device-ID: DEVICE0001\r\n\
        X-Fleet-ID: FLEET001\r\n\
        Content-Length: 25\r\n\
        Date: Sun, 06 Nov 1994 08:49:37 GMT\r\n\
        \r\n\
        {\"error\":\"Not \\\"Found\\\"\"}";
    assert_eq!(text, expected);

    let mut e = Resp::event_stream();
    let text = e.compile(false, "D", "F", 0);
    assert!(!text.contains("Content-Length"));
    assert!(text.contains("X-Connected: false\r\n"));
    assert!(text.contains("Date: Thu, 01 Jan 1970 00:00:00 GMT\r\n"));
    assert!(text.ends_with("\r\n\r\n"));
    assert_eq!(e.header("Content-Length"), None);

    let mut u = Resp::ok("é");
    let text = u.compile(true, "D", "F", 1);
    assert!(text.contains("Content-Length: 2\r\n"));
}

#[test]
fn test_failure_responses() {
    assert_eq!(
        FailureResp::bad_request("x").status_code(),
        StatusCode::BadRequest
    );
    assert_eq!(
        FailureResp::unauthorized("x").status_code(),
        StatusCode::Unauthorized
    );
    assert_eq!(
        FailureResp::forbidden("x").status_code(),
        StatusCode::Forbidden
    );
    assert_eq!(
        FailureResp::not_found("x").status_code(),
        StatusCode::NotFound
    );
    assert_eq!(FailureResp::timeout().status_code(), StatusCode::Timeout);
    assert_eq!(
        FailureResp::timeout().body(),
        "{\"error\":\"Operation timed out\"}"
    );
    assert_eq!(
        FailureResp::internal_server_error("x").status_code(),
        StatusCode::InternalServerError
    );
    assert_eq!(
        FailureResp::version_not_supported().status_code(),
        StatusCode::VersionNotSupported
    );
    assert_eq!(
        FailureResp::version_not_supported().body(),
        "{\"error\":\"HTTP Version Not Supported\"}"
    );
    assert_eq!(
        FailureResp::make(StatusCode::Forbidden, "line\nbreak\t\u{1}").body(),
        "{\"error\":\"line\\nbreak\\t\\u0001\"}"
    );
}

fn line_of(resp: &LineStep) -> Option<&str> {
    match resp {
        LineStep::Failed(r) => Some(r.body()),
        _ => None,
    }
}

#[test]
fn test_line_reader() {
    let mut reader = LineReader::new();
    assert!(matches!(reader.feed(b"GET / HT"), LineStep::More(8)));
    assert!(matches!(
        reader.feed(b"TP/1.1\r\r\nHost: x\r\n"),
        LineStep::Line(9)
    ));
    assert_eq!(
        reader.finish().ok().unwrap(),
        Some("GET / HTTP/1.1".to_string())
    );

    // A carriage return at the end of one chunk stays in the line.
    let mut reader = LineReader::new();
    assert!(matches!(reader.feed(b"a\r"), LineStep::More(2)));
    assert!(matches!(reader.feed(b"\nrest"), LineStep::Line(1)));
    assert_eq!(reader.finish().ok().unwrap(), Some("a\r".to_string()));

    let mut reader = LineReader::new();
    assert!(matches!(reader.feed(b"\r\n"), LineStep::Line(2)));
    assert_eq!(reader.finish().ok().unwrap(), None);

    let mut reader = LineReader::new();
    assert_eq!(
        line_of(&reader.feed(b"")),
        Some("{\"error\":\"Unexpected EOF while reading line\"}")
    );
    reader.feed(b"abc");
    assert_eq!(
        line_of(&reader.feed(b"")),
        Some("{\"error\":\"Unexpected EOF in line\"}")
    );

    let mut reader = LineReader::new();
    assert!(matches!(reader.feed(&[b'a'; 8192]), LineStep::More(8192)));
    assert_eq!(
        line_of(&reader.feed(b"b")),
        Some("{\"error\":\"Line too long\"}")
    );
    assert!(matches!(reader.feed(b"\r\n"), LineStep::Line(2)));
    let mut reader = LineReader::new();
    reader.feed(&[b'a'; 8000]);
    let mut chunk = vec![b'a'; 193];
    chunk.push(b'\n');
    assert_eq!(
        line_of(&reader.feed(&chunk)),
        Some("{\"error\":\"Line too long\"}")
    );

    let mut reader = LineReader::new();
    reader.feed(&[0xff, 0xfe, b'\n']);
    assert_eq!(
        reader.finish().err().unwrap().body(),
        "{\"error\":\"Invalid Encoding\"}"
    );

    assert!(read_failure(IoFailure::Interrupted).is_none());
    assert_eq!(
        read_failure(IoFailure::TimedOut).unwrap().body(),
        "{\"error\":\"Timed out reading line\"}"
    );
    assert_eq!(
        read_failure(IoFailure::WouldBlock).unwrap().body(),
        "{\"error\":\"Timed out reading line\"}"
    );
    assert_eq!(
        read_failure(IoFailure::Other).unwrap().body(),
        "{\"error\":\"Failed reading line\"}"
    );
    assert_eq!(
        empty_request().body(),
        "{\"error\":\"Empty Request\"}"
    );
    assert_eq!(
        body_read_failed().body(),
        "{\"error\":\"Failed to read request body\"}"
    );
}

#[test]
fn test_split_whitespace_matches_std() {
    for text in [
        "",
        " ",
        "a",
        " a",
        "a ",
        "GET / HTTP/1.1",
        "  GET\t/x \u{a0} HTTP/1.1  extra words ",
        "a\u{3000}b",
        "één twee",
    ] {
        let expected: Vec<String> = text.split_whitespace().map(|s| s.to_string()).collect();
        assert_eq!(split_whitespace(text), expected, "{text:?}");
    }
}

#[test]
fn test_parse_request_line() {
    let ok = |line: &str| parse_request_line(line).ok().unwrap();
    let err = |line: &str| {
        let r = parse_request_line(line).err().unwrap();
        (r.status_code(), r.body().to_string())
    };
    assert_eq!(ok("GET / HTTP/1.1"), (Method::GET, "/".to_string()));
    assert_eq!(
        ok("put /mailbox/ack/5 http/1.1"),
        (Method::PUT, "/mailbox/ack/5".to_string())
    );
    assert_eq!(ok("  HEAD   /x  HTTP/1.1 junk"), (Method::HEAD, "/x".to_string()));
    assert_eq!(ok("Post /p HTTP/1.1"), (Method::POST, "/p".to_string()));
    assert_eq!(
        ok("DELETE /stop-agent HTTP/1.1"),
        (Method::DELETE, "/stop-agent".to_string())
    );
    assert_eq!(
        err("GET / HTTP/1.0"),
        (
            StatusCode::VersionNotSupported,
            "{\"error\":\"HTTP Version Not Supported\"}".to_string()
        )
    );
    assert_eq!(err("GET /").0, StatusCode::VersionNotSupported);
    assert_eq!(err("").0, StatusCode::VersionNotSupported);
    assert_eq!(
        err("GET x HTTP/1.1"),
        (
            StatusCode::BadRequest,
            "{\"error\":\"Invalid HTTP Path\"}".to_string()
        )
    );
    assert_eq!(
        err("PATCH / HTTP/1.1"),
        (
            StatusCode::BadRequest,
            "{\"error\":\"Unsupported HTTP Method\"}".to_string()
        )
    );
    // The version is looked at before the path, and the path before the method.
    assert_eq!(err("PATCH x HTTP/2").0, StatusCode::VersionNotSupported);
    assert_eq!(err("PATCH x HTTP/1.1").1, "{\"error\":\"Invalid HTTP Path\"}");
}

#[test]
fn test_parse_headers() {
    assert_eq!(
        parse_header_line("  X-Fleet-ID :  ABC : def  ").ok().unwrap(),
        ("x-fleet-id".to_string(), "ABC : def".to_string())
    );
    assert_eq!(
        parse_header_line("Empty:").ok().unwrap(),
        ("empty".to_string(), "".to_string())
    );
    assert_eq!(
        parse_header_line("no colon").err().unwrap().body(),
        "{\"error\":\"Malformed header line\"}"
    );
    assert_eq!(
        parse_header_line(" : value").err().unwrap().body(),
        "{\"error\":\"Empty header name\"}"
    );

    let mut headers = Headers::new();
    assert!(parse_request_headers(&mut headers, "Content-Length: 10").is_ok());
    assert!(parse_request_headers(&mut headers, "content-length: 12").is_ok());
    assert_eq!(headers.len(), 1);
    assert_eq!(headers.get("content-length"), Some("12"));
    assert!(parse_request_headers(&mut headers, "bad").is_err());
    assert_eq!(headers.len(), 1);
    for i in 0..63 {
        assert!(parse_request_headers(&mut headers, &format!("h{i}: v")).is_ok());
    }
    assert_eq!(headers.len(), 64);
    // Not even a header that is there already is taken now.
    assert_eq!(
        parse_request_headers(&mut headers, "h1: w")
            .err()
            .unwrap()
            .body(),
        "{\"error\":\"Too many headers\"}"
    );
    assert_eq!(headers.get("h1"), Some("v"));
}

fn headers_of(lines: &[&str]) -> Headers {
    let mut headers = Headers::new();
    for line in lines {
        assert!(parse_request_headers(&mut headers, line).is_ok());
    }
    headers
}

#[test]
fn test_validate_headers() {
    let verdict = |lines: &[&str]| {
        validate_headers(&headers_of(lines), "FLEET001", "DEVICE0001")
            .err()
            .map(|r| (r.status_code(), r.body().to_string()))
    };
    assert_eq!(
        verdict(&["X-Fleet-ID: FLEET001", "X-Device-ID: DEVICE0001"]),
        None
    );
    assert_eq!(
        verdict(&["X-Device-ID: DEVICE0001"]),
        Some((
            StatusCode::BadRequest,
            "{\"error\":\"Header X-Fleet-ID is missing\"}".to_string()
        ))
    );
    assert_eq!(
        verdict(&["X-Fleet-ID:", "X-Device-ID: DEVICE0001"]),
        Some((
            StatusCode::BadRequest,
            "{\"error\":\"Header X-Fleet-ID is empty\"}".to_string()
        ))
    );
    assert_eq!(
        verdict(&["X-Fleet-ID: fleet001", "X-Device-ID: DEVICE0001"]),
        Some((
            StatusCode::Unauthorized,
            "{\"error\":\"Fleet ID mismatch\"}".to_string()
        ))
    );
    assert_eq!(
        verdict(&["X-Fleet-ID: FLEET001"]),
        Some((
            StatusCode::BadRequest,
            "{\"error\":\"Header X-Device-ID is missing\"}".to_string()
        ))
    );
    assert_eq!(
        verdict(&["X-Fleet-ID: FLEET001", "X-Device-ID:  "]),
        Some((
            StatusCode::BadRequest,
            "{\"error\":\"Header X-Device-ID is empty\"}".to_string()
        ))
    );
    assert_eq!(
        verdict(&["X-Fleet-ID: FLEET001", "X-Device-ID: OTHER"]),
        Some((
            StatusCode::Unauthorized,
            "{\"error\":\"Device ID mismatch\"}".to_string()
        ))
    );

    assert!(skips_validation(Method::GET, &"/".to_string()));
    assert!(skips_validation(Method::DELETE, &"/stop-agent".to_string()));
    assert!(!skips_validation(Method::HEAD, &"/".to_string()));
    assert!(!skips_validation(Method::GET, &"/stop-agent".to_string()));
    assert!(!skips_validation(Method::GET, &"/events".to_string()));
}

#[test]
fn test_body_rules() {
    let plan = |lines: &[&str]| match parse_request_body(&headers_of(lines)) {
        Ok(n) => Ok(n),
        Err(r) => Err(r.body().to_string()),
    };
    assert_eq!(plan(&[]), Ok(None));
    assert_eq!(plan(&["Content-Length: 0"]), Ok(None));
    assert_eq!(
        plan(&["Content-Length: 12", "Content-Type: Application/JSON; charset=utf-8"]),
        Ok(Some(12))
    );
    assert_eq!(
        plan(&["Content-Length: 65536", "Content-Type: application/json"]),
        Ok(Some(65536))
    );
    assert_eq!(
        plan(&["Content-Length: 65537", "Content-Type: application/json"]),
        Err("{\"error\":\"Request Body Too Large\"}".to_string())
    );
    assert_eq!(
        plan(&["Content-Length: ten"]),
        Err("{\"error\":\"Invalid Content-Length Header\"}".to_string())
    );
    assert_eq!(
        plan(&["Content-Length: -1"]),
        Err("{\"error\":\"Invalid Content-Length Header\"}".to_string())
    );
    assert_eq!(
        plan(&["Content-Length: 5"]),
        Err("{\"error\":\"Missing Content-Type Header\"}".to_string())
    );
    assert_eq!(
        plan(&["Content-Length: 5", "Content-Type: text/plain"]),
        Err("{\"error\":\"Content-Type Must Be application/json\"}".to_string())
    );
    assert_eq!(
        plan(&["Transfer-Encoding: gzip, Chunked", "Content-Length: 0"]),
        Err("{\"error\":\"Transfer-Encoding: chunked not supported\"}".to_string())
    );
    assert_eq!(plan(&["Transfer-Encoding: gzip"]), Ok(None));

    assert_eq!(
        parse_body(b" { \"a\" : 1 } ".to_vec()).ok().unwrap(),
        "{\"a\":1}"
    );
    assert_eq!(parse_body(b"null".to_vec()).ok().unwrap(), "null");
    assert_eq!(
        parse_body(b"{".to_vec()).err().unwrap().body(),
        "{\"error\":\"Failed to parse JSON body\"}"
    );
    assert_eq!(
        parse_body(vec![0xff]).err().unwrap().body(),
        "{\"error\":\"Failed to parse JSON body\"}"
    );
}

fn routed(method: Method, path: &str) -> String {
    match route(method, path) {
        Action::Status => "status".to_string(),
        Action::Head => "head".to_string(),
        Action::StopAgent => "stop".to_string(),
        Action::EventStream => "events".to_string(),
        Action::MailboxNext(h) => format!("next {h}"),
        Action::MailOp(a, id) => format!("{} {id}", a.to_string()),
        Action::SendPulse(t, name) => format!("{} {name:?}", t.to_string()),
        Action::Reject(r) => format!("{} {}", r.status_code().to_http(), r.body()),
    }
}

#[test]
fn test_route() {
    assert_eq!(routed(Method::GET, "/"), "status");
    assert_eq!(routed(Method::HEAD, "/"), "head");
    assert_eq!(routed(Method::DELETE, "/stop-agent"), "stop");
    assert_eq!(routed(Method::GET, "/events"), "events");
    assert_eq!(routed(Method::GET, "/mailbox/next"), "next false");
    assert_eq!(routed(Method::HEAD, "/mailbox/next"), "next true");
    assert_eq!(routed(Method::PUT, "/mailbox/ack/17"), "acknowledge 17");
    assert_eq!(routed(Method::PUT, "/mailbox/reject/0"), "reject 0");
    assert_eq!(
        routed(Method::PUT, "/mailbox/requeue/18446744073709551615"),
        "requeue 18446744073709551615"
    );
    assert_eq!(
        routed(Method::PUT, "/mailbox/ack/"),
        "400 Bad Request {\"error\":\"invalid_pulse_id: The provided Pulse ID is invalid. A Pulse ID is a 64-bit unsigned integer.\"}"
    );
    assert!(routed(Method::PUT, "/mailbox/ack/1/2").starts_with("400 Bad Request"));
    assert!(routed(Method::PUT, "/mailbox/ack/abc").starts_with("400 Bad Request"));
    assert_eq!(
        routed(Method::POST, "/pulse/datapoint/temp_1"),
        "datapoint \"temp_1\""
    );
    assert_eq!(routed(Method::POST, "/pulse/msg/a-b"), "msg \"a-b\"");
    assert_eq!(routed(Method::POST, "/pulse/system/x"), "system \"x\"");
    assert_eq!(
        routed(Method::POST, "/pulse/msg/"),
        "400 Bad Request {\"error\":\"Invalid Pulse Name\"}"
    );
    assert_eq!(
        routed(Method::POST, "/pulse/msg/a/b"),
        "400 Bad Request {\"error\":\"Invalid Pulse Name\"}"
    );
    assert_eq!(
        routed(Method::POST, "/pulse/other/x"),
        "404 Not Found {\"error\":\"Not Found\"}"
    );
    assert_eq!(
        routed(Method::GET, "/mailbox/ack/1"),
        "404 Not Found {\"error\":\"Not Found\"}"
    );
    assert_eq!(
        routed(Method::POST, "/"),
        "404 Not Found {\"error\":\"Not Found\"}"
    );
    assert_eq!(
        routed(Method::GET, "/events/"),
        "404 Not Found {\"error\":\"Not Found\"}"
    );
}

#[test]
fn test_is_valid_pulse_name() {
    assert!(is_valid_pulse_name("a"));
    assert!(is_valid_pulse_name("Temp_1-x"));
    assert!(is_valid_pulse_name(&"a".repeat(255)));
    assert!(!is_valid_pulse_name(&"a".repeat(256)));
    assert!(!is_valid_pulse_name(""));
    assert!(!is_valid_pulse_name("a b"));
    assert!(!is_valid_pulse_name("a/b"));
    assert!(!is_valid_pulse_name("é"));
    assert!(!is_valid_pulse_name("a."));
}

#[test]
fn test_notification_texts() {
    let n = |e: &str, d: &str| notification(e.to_string(), d.to_string());
    assert_eq!(n("", "data"), "");
    assert_eq!(n("connected", ""), "event: connected\n\n");
    assert_eq!(n("e", "one"), "event: e\ndata: one\n\n");
    assert_eq!(n("e", "one\ntwo"), "event: e\ndata: one\ndata: two\n\n");
    assert_eq!(n("e", "\none\n\n\ntwo\n"), "event: e\ndata: one\ndata: two\n\n");
    assert_eq!(n("e", "\n\n"), "event: e\n\n");
    assert_eq!(n("e", "a\r\nb"), "event: e\ndata: a\r\ndata: b\n\n");
    assert_eq!(
        n("disconnected", "{\"error\":\"x\",\"reconnecting_in_ms\":0}"),
        "event: disconnected\ndata: {\"error\":\"x\",\"reconnecting_in_ms\":0}\n\n"
    );
    for text in ["", "a", "\n", "a\nb", "a\n", "\na", "\n\n", "x\n\ny"] {
        let expected: Vec<String> = text.split('\n').map(|s| s.to_string()).collect();
        assert_eq!(split_lines(text), expected, "{text:?}");
    }

    assert_eq!(keep_alive(0), "event: keep_alive\ndata: 0\n\n");
    assert_eq!(
        keep_alive(1700000000123),
        "event: keep_alive\ndata: 1700000000123\n\n"
    );
    assert_eq!(first_event(true), "event: connected\n\n");
    assert_eq!(first_event(false), "event: disconnected\n\n");
    assert!(keep_alive_due(1_000, 16_000));
    assert!(!keep_alive_due(1_000, 15_999));
    assert!(!keep_alive_due(16_000, 1_000));
}

fn shown(r: Resp) -> (StatusCode, String, Vec<(String, String)>) {
    let extra = header_list(&r).into_iter().skip(9).collect();
    (r.status_code(), r.body().to_string(), extra)
}

fn pair(k: &str, v: &str) -> (String, String) {
    (k.to_string(), v.to_string())
}

#[test]
fn test_command_answers() {
    assert_eq!(
        shown(not_connected()),
        (
            StatusCode::Forbidden,
            "{\"error\":\"not_connected: Device Agent is still connecting to Fostrom\"}"
                .to_string(),
            vec![]
        )
    );
    assert_eq!(
        make_request(Awaited::TimedOut).err().unwrap().status_code(),
        StatusCode::Timeout
    );
    assert_eq!(
        make_request(Awaited::Reply(ReturnChanResult::Timeout))
            .err()
            .unwrap()
            .status_code(),
        StatusCode::Timeout
    );
    assert_eq!(
        shown(make_request(Awaited::Disconnected).err().unwrap()),
        (
            StatusCode::InternalServerError,
            "{\"error\":\"Failed to receive response\"}".to_string(),
            vec![]
        )
    );
    assert_eq!(
        shown(
            make_request(Awaited::Reply(ReturnChanResult::Error("boom".to_string())))
                .err()
                .unwrap()
        ),
        (
            StatusCode::Forbidden,
            "{\"error\":\"boom\"}".to_string(),
            vec![]
        )
    );
    assert_eq!(
        make_request(Awaited::Reply(ReturnChanResult::Success)).ok(),
        Some(ReturnChanResult::Success)
    );

    assert_eq!(
        shown(send_pulse(Ok(ReturnChanResult::Success))),
        (StatusCode::Success, "{\"ok\":true}".to_string(), vec![])
    );
    assert_eq!(
        shown(send_pulse(Ok(ReturnChanResult::Mail(None)))),
        (
            StatusCode::InternalServerError,
            "{\"error\":\"Unexpected Response\"}".to_string(),
            vec![]
        )
    );
    assert_eq!(
        send_pulse(Err(FailureResp::timeout())).status_code(),
        StatusCode::Timeout
    );

    assert_eq!(
        shown(mail_op(Ok(ReturnChanResult::MailAckSuccessful(true)))),
        (
            StatusCode::Success,
            "{\"mail_available\":true,\"ok\":true}".to_string(),
            vec![pair("X-Mail-Available", "true")]
        )
    );
    assert_eq!(
        shown(mail_op(Ok(ReturnChanResult::MailAckSuccessful(false)))),
        (
            StatusCode::Success,
            "{\"mail_available\":false,\"ok\":true}".to_string(),
            vec![pair("X-Mail-Available", "false")]
        )
    );
    assert_eq!(
        mail_op(Ok(ReturnChanResult::Success)).status_code(),
        StatusCode::InternalServerError
    );

    assert_eq!(
        shown(mailbox_next(Ok(ReturnChanResult::Mail(None)), false)),
        (
            StatusCode::Success,
            "".to_string(),
            vec![pair("X-Mailbox-Size", "0"), pair("X-Mailbox-Empty", "true")]
        )
    );
    let mail = Mail {
        pulse_id: 500,
        name: "hello".to_string(),
        payload: Some("{\"world\":true}".to_string()),
        mailbox_size: 3,
    };
    let headers = vec![
        pair("X-Mailbox-Size", "3"),
        pair("X-Mailbox-Empty", "false"),
        pair("X-Mail-ID", "500"),
        pair("X-Mail-Name", "hello"),
        pair("X-Mail-Has-Payload", "true"),
    ];
    assert_eq!(
        shown(mailbox_next(
            Ok(ReturnChanResult::Mail(Some(mail.clone()))),
            false
        )),
        (
            StatusCode::Success,
            "{\"world\":true}".to_string(),
            headers.clone()
        )
    );
    assert_eq!(
        shown(mailbox_next(Ok(ReturnChanResult::Mail(Some(mail))), true)),
        (StatusCode::Success, "".to_string(), headers)
    );
    let bare = Mail {
        pulse_id: 1,
        name: "n".to_string(),
        payload: None,
        mailbox_size: 1,
    };
    let (status, body, headers) = shown(mailbox_next(
        Ok(ReturnChanResult::Mail(Some(bare))),
        false,
    ));
    assert_eq!((status, body.as_str()), (StatusCode::Success, ""));
    assert_eq!(headers[4], pair("X-Mail-Has-Payload", "false"));
    assert_eq!(
        mailbox_next(Ok(ReturnChanResult::MailAckSuccessful(true)), false).status_code(),
        StatusCode::InternalServerError
    );
}

#[test]
fn test_method_and_ack_names() {
    assert!(Method::GET < Method::HEAD && Method::PUT < Method::DELETE);
    assert_eq!(MailAckType::Ack.code(), 1);
    assert_eq!(PulseType::Data.code(), 2);
}

fn read_request(lines: &[&str]) -> Progress {
    let mut parser = RequestParser::new();
    for line in lines {
        let given = if line.is_empty() { None } else { Some(*line) };
        match parser.parse_request(given, "FLEET001", "DEVICE0001") {
            Progress::NeedLine => {}
            done => return done,
        }
    }
    panic!("the request did not end");
}

fn outcome(progress: Progress) -> String {
    match progress {
        Progress::NeedLine => "more".to_string(),
        Progress::Done(req) => format!("{:?} {} {}", req.method, req.path, req.headers.len()),
        Progress::NeedBody(req, n) => format!("{:?} {} body {n}", req.method, req.path),
        Progress::Failed(resp) => format!("{} {}", resp.status_code().to_http(), resp.body()),
    }
}

#[test]
fn test_request_parser() {
    // The status and the stop are answered to anybody.
    assert_eq!(outcome(read_request(&["GET / HTTP/1.1", ""])), "GET / 0");
    assert_eq!(
        outcome(read_request(&["DELETE /stop-agent HTTP/1.1", "Host: x", ""])),
        "DELETE /stop-agent 1"
    );
    assert_eq!(
        outcome(read_request(&[""])),
        "400 Bad Request {\"error\":\"Empty Request\"}"
    );
    assert_eq!(
        outcome(read_request(&["GET / HTTP/2", ""])),
        "505 HTTP Version Not Supported {\"error\":\"HTTP Version Not Supported\"}"
    );
    assert_eq!(
        outcome(read_request(&["GET /events HTTP/1.1", "broken", ""])),
        "400 Bad Request {\"error\":\"Malformed header line\"}"
    );
    // Everything else has to name the fleet and the device.
    assert_eq!(
        outcome(read_request(&["GET /events HTTP/1.1", ""])),
        "400 Bad Request {\"error\":\"Header X-Fleet-ID is missing\"}"
    );
    assert_eq!(
        outcome(read_request(&[
            "HEAD / HTTP/1.1",
            "X-Fleet-ID: FLEET001",
            "X-Device-ID: DEVICE0002",
            ""
        ])),
        "401 Unauthorized {\"error\":\"Device ID mismatch\"}"
    );
    assert_eq!(
        outcome(read_request(&[
            "GET /mailbox/next HTTP/1.1",
            "X-Fleet-ID: FLEET001",
            "X-Device-ID: DEVICE0001",
            ""
        ])),
        "GET /mailbox/next 2"
    );
    let with_length = read_request(&[
        "POST /pulse/msg/hello HTTP/1.1",
        "x-fleet-id: FLEET001",
        "x-device-id: DEVICE0001",
        "Content-Type: application/json",
        "Content-Length: 14",
        "",
    ]);
    let req = match with_length {
        Progress::NeedBody(req, 14) => req,
        other => panic!("unexpected: {}", outcome(other)),
    };
    assert!(req.body.is_none());
    let full = with_body(req.clone(), b"{\"world\":true}".to_vec()).ok().unwrap();
    assert_eq!(full.body, Some("{\"world\":true}".to_string()));
    assert_eq!(full.path, "/pulse/msg/hello");
    assert_eq!(full.headers.len(), 4);
    assert_eq!(
        with_body(req, b"{\"world\":".to_vec()).err().unwrap().body(),
        "{\"error\":\"Failed to parse JSON body\"}"
    );
    assert_eq!(
        outcome(read_request(&[
            "POST /pulse/msg/hello HTTP/1.1",
            "x-fleet-id: FLEET001",
            "x-device-id: DEVICE0001",
            "Content-Length: 99999999",
            "",
        ])),
        "400 Bad Request {\"error\":\"Request Body Too Large\"}"
    );
}

#[test]
fn test_json_string_escapes() {
    let body = |msg: &str| FailureResp::bad_request(msg).body().to_string();
    assert_eq!(body(""), "{\"error\":\"\"}");
    assert_eq!(body("plain text 123"), "{\"error\":\"plain text 123\"}");
    assert_eq!(
        body("q\" b\\ bs\u{8} t\t n\n f\u{c} r\r"),
        "{\"error\":\"q\\\" b\\\\ bs\\b t\\t n\\n f\\f r\\r\"}"
    );
    assert_eq!(
        body("\u{0}\u{7}\u{b}\u{e}\u{1f}"),
        "{\"error\":\"\\u0000\\u0007\\u000b\\u000e\\u001f\"}"
    );
    // From the space on nothing but the quote and the backslash is escaped.
    assert_eq!(
        body(" /\u{7f}\u{80}é\u{2028}😀"),
        "{\"error\":\" /\u{7f}\u{80}é\u{2028}😀\"}"
    );
}

#[test]
fn test_white_space_is_what_std_says() {
    let mut seen = 0;
    for code in (0u32..0x3400).chain(0xfe00..0xff00).chain(0x1_0000..0x1_0100) {
        let c = match char::from_u32(code) {
            Some(c) => c,
            None => continue,
        };
        let text = format!("a{c}b");
        let words = split_whitespace(&text);
        if c.is_whitespace() {
            seen += 1;
            assert_eq!(words, vec!["a".to_string(), "b".to_string()], "{code:#x}");
        } else {
            assert_eq!(words, vec![text.clone()], "{code:#x}");
        }
    }
    assert_eq!(seen, 25);
}

#[test]
fn test_push_default_headers_on_any_response() {
    let mut r = Resp::new(StatusCode::Forbidden, "x");
    r.add_header("X-Mine", "1").add_header("Connection", "keep-alive");
    r.push_default_headers();
    let headers = header_list(&r);
    assert_eq!(headers.len(), 10);
    assert_eq!(headers[1], pair("Connection", "close"));
    assert_eq!(headers[9], pair("X-Mine", "1"));
    assert_eq!(r.body(), "x");
    assert_eq!(r.status_code(), StatusCode::Forbidden);
}
