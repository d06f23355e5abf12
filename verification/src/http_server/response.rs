//! HTTP responses: a status, a list of headers in which no name occurs
//! twice, and a body.

use vstd::prelude::*;
use vstd::string::*;
use crate::http_server::headers::{
    distinct_names,
    has_header,
    header_at,
    header_value,
    set_header,
    without_header,
    Header,
    Headers,
};
use crate::json::{json_string, quote};
use crate::text::{decimal_of, owned, push_decimal, push_str, replace_line_breaks, without_line_breaks};

verus! {

/// The version of the agent, as the headers show it.
pub open spec fn agent_version() -> Seq<char> {
    "0.1.0"@
}

/// The name under which the agent answers.
pub open spec fn server_name() -> Seq<char> {
    "Fostrom-Device-Agent/v0.1.0"@
}

/// Seconds since the Unix epoch from which on no HTTP date can be written:
/// the first second of the year 10000.
pub const HTTP_DATE_END: u64 = 253_402_300_800;

/// The HTTP date (IMF-fixdate) of a time given in seconds since the Unix
/// epoch.
pub uninterp spec fn http_date(unix_secs: u64) -> Seq<char>;

/// Trusted: `httpdate::fmt_http_date` writes the time in the fixed-length
/// format of HTTP dates, which depends on the time alone. It panics from
/// the year 10000 on, which the precondition leaves out.
#[verifier::external_body]
fn fmt_http_date(unix_secs: u64) -> (r: String)
    requires
        unix_secs < HTTP_DATE_END,
    ensures
        r@ == http_date(unix_secs),
{
    httpdate::fmt_http_date(std::time::UNIX_EPOCH + std::time::Duration::from_secs(unix_secs))
}

/// The status of a response.
#[derive(Debug, Clone, Copy, PartialEq, Eq, Structural)]
pub enum StatusCode {
    Success,
    BadRequest,
    Unauthorized,
    Forbidden,
    NotFound,
    Timeout,
    VersionNotSupported,
    InternalServerError,
}

impl StatusCode {
    /// The status as it stands in the status line.
    pub open spec fn text(self) -> Seq<char> {
        match self {
            StatusCode::Success => "200 OK"@,
            StatusCode::BadRequest => "400 Bad Request"@,
            StatusCode::Unauthorized => "401 Unauthorized"@,
            StatusCode::Forbidden => "403 Forbidden"@,
            StatusCode::NotFound => "404 Not Found"@,
            StatusCode::Timeout => "408 Request Timeout"@,
            StatusCode::VersionNotSupported => "505 HTTP Version Not Supported"@,
            StatusCode::InternalServerError => "500 Internal Server Error"@,
        }
    }

    pub fn to_http(&self) -> (r: &str)
        ensures
            r@ == self.text(),
    {
        match self {
            StatusCode::Success => "200 OK",
            StatusCode::BadRequest => "400 Bad Request",
            StatusCode::Unauthorized => "401 Unauthorized",
            StatusCode::Forbidden => "403 Forbidden",
            StatusCode::NotFound => "404 Not Found",
            StatusCode::Timeout => "408 Request Timeout",
            StatusCode::VersionNotSupported => "505 HTTP Version Not Supported",
            StatusCode::InternalServerError => "500 Internal Server Error",
        }
    }
}

/// The headers that every response starts with.
pub open spec fn default_headers() -> Seq<Header> {
    seq![
        ("Cache-Control"@, "no-cache"@),
        ("Connection"@, "close"@),
        ("Content-Type"@, "application/json; charset=utf-8"@),
        ("X-Powered-By"@, "Fostrom"@),
        ("X-API-Version"@, "1"@),
        ("X-Protocol"@, "Moonlight"@),
        ("X-Protocol-Version"@, "1"@),
        ("Server"@, server_name()),
        ("X-Agent-Version"@, agent_version()),
    ]
}

/// A list of headers with the default headers set, one after the other:
/// a header that was there under one of their names keeps its place and
/// gets the default value.
pub open spec fn with_defaults(headers: Seq<Header>) -> Seq<Header> {
    let h1 = set_header(headers, "Cache-Control"@, "no-cache"@);
    let h2 = set_header(h1, "Connection"@, "close"@);
    let h3 = set_header(h2, "Content-Type"@, "application/json; charset=utf-8"@);
    let h4 = set_header(h3, "X-Powered-By"@, "Fostrom"@);
    let h5 = set_header(h4, "X-API-Version"@, "1"@);
    let h6 = set_header(h5, "X-Protocol"@, "Moonlight"@);
    let h7 = set_header(h6, "X-Protocol-Version"@, "1"@);
    let h8 = set_header(h7, "Server"@, server_name());
    set_header(h8, "X-Agent-Version"@, agent_version())
}

/// The header lines of a response: for each header its name, a colon and
/// a space, its value with line breaks replaced by spaces, and the end of
/// the line.
pub open spec fn header_lines(headers: Seq<Header>) -> Seq<char>
    decreases headers.len(),
{
    if headers.len() == 0 {
        Seq::empty()
    } else {
        header_lines(headers.drop_last()) + headers.last().0 + ": "@ + without_line_breaks(
            headers.last().1,
        ) + "\r\n"@
    }
}

/// The text of a response: the status line, the header lines, an empty
/// line and the body.
pub open spec fn response_text(status: StatusCode, headers: Seq<Header>, body: Seq<char>) -> Seq<
    char,
> {
    "HTTP/1.1 "@ + status.text() + "\r\n"@ + header_lines(headers) + "\r\n"@ + body
}

/// The text `true` or `false`.
pub open spec fn bool_text(b: bool) -> Seq<char> {
    if b {
        "true"@
    } else {
        "false"@
    }
}

/// `true` or `false`.
pub fn bool_str(b: bool) -> (r: &'static str)
    ensures
        r@ == bool_text(b),
{
    if b {
        "true"
    } else {
        "false"
    }
}

/// A response, as the contracts speak of it.
pub struct RespView {
    pub status_code: StatusCode,
    pub headers: Seq<Header>,
    pub body: Seq<char>,
    pub is_event_stream: bool,
}

/// A response.
pub struct Resp {
    status_code: StatusCode,
    headers: Headers,
    body: String,
    pub is_event_stream: bool,
}

impl View for Resp {
    type V = RespView;

    closed spec fn view(&self) -> RespView {
        RespView {
            status_code: self.status_code,
            headers: self.headers@,
            body: self.body@,
            is_event_stream: self.is_event_stream,
        }
    }
}

/// The headers that a response has when it is written out: those it had,
/// then whether the agent is connected, the device and fleet ids, the
/// length of the body in bytes and the date; an event stream has no
/// content length.
pub open spec fn compiled_headers(
    resp: RespView,
    connected: bool,
    device_id: Seq<char>,
    fleet_id: Seq<char>,
    body_len: nat,
    unix_secs: u64,
) -> Seq<Header> {
    let h1 = set_header(resp.headers, "X-Connected"@, bool_text(connected));
    let h2 = set_header(h1, "X-Device-ID"@, device_id);
    let h3 = set_header(h2, "X-Fleet-ID"@, fleet_id);
    let h4 = set_header(h3, "Content-Length"@, decimal_of(body_len));
    let h5 = set_header(h4, "Date"@, http_date(unix_secs));
    if resp.is_event_stream {
        without_header(h5, "Content-Length"@)
    } else {
        h5
    }
}

impl Resp {
    /// Whether no header name occurs twice.
    pub open spec fn wf(&self) -> bool {
        distinct_names(self@.headers)
    }

    /// A response with the status 200.
    pub fn ok(body: &str) -> (resp: Resp)
        ensures
            resp.wf(),
            resp@ == (RespView {
                status_code: StatusCode::Success,
                headers: default_headers(),
                body: body@,
                is_event_stream: false,
            }),
    {
        Resp::new(StatusCode::Success, body)
    }

    /// A response with this status and body, and the default headers.
    pub fn new(status_code: StatusCode, body: &str) -> (resp: Resp)
        ensures
            resp.wf(),
            resp@ == (RespView {
                status_code,
                headers: default_headers(),
                body: body@,
                is_event_stream: false,
            }),
    {
        let mut resp = Resp {
            status_code,
            headers: Headers::new(),
            body: owned(body),
            is_event_stream: false,
        };
        resp.push_default_headers();
        resp
    }

    /// The response that opens an event stream.
    pub fn event_stream() -> (resp: Resp)
        ensures
            resp.wf(),
            resp@ == (RespView {
                status_code: StatusCode::Success,
                headers: set_header(
                    set_header(
                        set_header(
                            default_headers(),
                            "Content-Type"@,
                            "text/event-stream; charset=utf-8"@,
                        ),
                        "Connection"@,
                        "keep-alive"@,
                    ),
                    "X-Accel-Buffering"@,
                    "no"@,
                ),
                body: ""@,
                is_event_stream: true,
            }),
    {
        let mut resp = Resp::ok("");
        resp.add_header("Content-Type", "text/event-stream; charset=utf-8").add_header(
            "Connection",
            "keep-alive",
        ).add_header("X-Accel-Buffering", "no");
        resp.is_event_stream = true;
        resp
    }

    /// Sets a header: see [`set_header`]. Hands the response back, so that
    /// calls can be chained.
    pub fn add_header(&mut self, key: &str, value: &str) -> (same: &mut Resp)
        requires
            old(self).wf(),
        ensures
            same.wf(),
            same@ == (RespView {
                headers: set_header(old(self)@.headers, key@, value@),
                ..old(self)@
            }),
            *final(self) == *final(same),
    {
        self.put_header(key, value);
        self
    }

    /// Sets a header: see [`set_header`].
    fn put_header(&mut self, key: &str, value: &str)
        requires
            old(self).wf(),
        ensures
            final(self).wf(),
            final(self)@ == (RespView {
                headers: set_header(old(self)@.headers, key@, value@),
                ..old(self)@
            }),
    {
        self.headers.set(key, value);
    }

    /// Removes the header of that name, if there is one.
    fn remove_header(&mut self, key: &str)
        requires
            old(self).wf(),
        ensures
            final(self).wf(),
            final(self)@ == (RespView {
                headers: without_header(old(self)@.headers, key@),
                ..old(self)@
            }),
    {
        self.headers.remove(key);
    }

    /// Replaces the body. Hands the response back, so that calls can be
    /// chained.
    pub fn set_body(&mut self, body: &str) -> (same: &mut Resp)
        ensures
            same@ == (RespView { body: body@, ..old(self)@ }),
            *final(self) == *final(same),
    {
        self.body = owned(body);
        self
    }

    /// Sets the headers that every response starts with: see
    /// [`with_defaults`]. On a response without headers these are the
    /// default headers, in their order.
    pub fn push_default_headers(&mut self)
        requires
            old(self).wf(),
        ensures
            final(self).wf(),
            final(self)@ == (RespView { headers: with_defaults(old(self)@.headers), ..old(self)@ }),
            old(self)@.headers.len() == 0 ==> final(self)@.headers == default_headers(),
    {
        proof {
            lemma_default_headers();
            if self@.headers.len() == 0 {
                assert(self@.headers =~= Seq::<Header>::empty());
            }
        }
        self.put_header("Cache-Control", "no-cache");
        self.put_header("Connection", "close");
        self.put_header("Content-Type", "application/json; charset=utf-8");
        self.put_header("X-Powered-By", "Fostrom");
        self.put_header("X-API-Version", "1");
        self.put_header("X-Protocol", "Moonlight");
        self.put_header("X-Protocol-Version", "1");
        self.put_header("Server", "Fostrom-Device-Agent/v0.1.0");
        self.put_header("X-Agent-Version", "0.1.0");
    }

    /// The status of the response.
    pub fn status_code(&self) -> (r: StatusCode)
        ensures
            r == self@.status_code,
    {
        self.status_code
    }

    /// The body of the response.
    pub fn body(&self) -> (r: &str)
        ensures
            r@ == self@.body,
    {
        self.body.as_str()
    }

    /// The value of the header of that name, if there is one.
    pub fn header(&self, key: &str) -> (r: Option<&str>)
        requires
            self.wf(),
        ensures
            match r {
                Some(value) => header_value(self@.headers, key@) == Some(value@),
                None => header_value(self@.headers, key@) is None,
            },
    {
        self.headers.get(key)
    }

    /// The headers of the response.
    pub fn headers(&self) -> (r: &Headers)
        ensures
            r@ == self@.headers,
    {
        &self.headers
    }

    /// Writes the response out: the headers that tell of the agent and of
    /// this response are set, and the text is the status line, the header
    /// lines, an empty line and the body.
    pub fn compile(&mut self, connected: bool, device_id: &str, fleet_id: &str, unix_secs: u64) -> (out:
        String)
        requires
            old(self).wf(),
            unix_secs < HTTP_DATE_END,
        ensures
            final(self).wf(),
            final(self)@ == (RespView {
                headers: compiled_headers(
                    old(self)@,
                    connected,
                    device_id@,
                    fleet_id@,
                    vstd::utf8::encode_utf8(old(self)@.body).len(),
                    unix_secs,
                ),
                ..old(self)@
            }),
            out@ == response_text(final(self)@.status_code, final(self)@.headers, final(self)@.body),
    {
        let body_len = self.body.as_str().as_bytes().len();
        let mut length = String::new();
        push_decimal(&mut length, body_len as u64);
        assert(length@ =~= decimal_of(body_len as nat));
        let date = fmt_http_date(unix_secs);
        self.put_header("X-Connected", bool_str(connected));
        self.put_header("X-Device-ID", device_id);
        self.put_header("X-Fleet-ID", fleet_id);
        self.put_header("Content-Length", length.as_str());
        self.put_header("Date", date.as_str());
        if self.is_event_stream {
            self.remove_header("Content-Length");
        }
        let mut out = owned("HTTP/1.1 ");
        push_str(&mut out, self.status_code.to_http());
        push_str(&mut out, "\r\n");
        let ghost start = out@;
        let ghost headers = self@.headers;
        let mut i: usize = 0;
        assert(headers.subrange(0, 0) =~= Seq::<Header>::empty());
        assert(out@ =~= start + header_lines(headers.subrange(0, 0)));
        let count = self.headers.len();
        while i < count
            invariant
                i <= count,
                count == headers.len(),
                headers == self@.headers,
                out@ == start + header_lines(headers.subrange(0, i as int)),
            decreases count - i,
        {
            let ghost sofar = headers.subrange(0, i as int);
            let ghost next = headers.subrange(0, i + 1);
            let value = replace_line_breaks(self.headers.value_at(i));
            push_str(&mut out, self.headers.name_at(i));
            push_str(&mut out, ": ");
            push_str(&mut out, value.as_str());
            push_str(&mut out, "\r\n");
            proof {
                assert(next.drop_last() =~= sofar);
                assert(next.last() == headers[i as int]);
                assert(out@ =~= start + header_lines(next));
            }
            i += 1;
        }
        assert(headers.subrange(0, i as int) =~= headers);
        push_str(&mut out, "\r\n");
        push_str(&mut out, self.body.as_str());
        out
    }
}

/// No name occurs twice among the default headers, and setting them one
/// after the other on an empty list gives them in their order.
proof fn lemma_default_headers()
    ensures
        distinct_names(default_headers()),
        default_headers() == with_defaults(Seq::empty()),
{
    reveal_strlit("Cache-Control");
    reveal_strlit("Connection");
    reveal_strlit("Content-Type");
    reveal_strlit("X-Powered-By");
    reveal_strlit("X-API-Version");
    reveal_strlit("X-Protocol");
    reveal_strlit("X-Protocol-Version");
    reveal_strlit("Server");
    reveal_strlit("X-Agent-Version");
    assert("Cache-Control"@.len() == 13 && "Cache-Control"@[0] == 'C');
    assert("Connection"@.len() == 10 && "Connection"@[0] == 'C');
    assert("Content-Type"@.len() == 12 && "Content-Type"@[0] == 'C');
    assert("X-Powered-By"@.len() == 12 && "X-Powered-By"@[0] == 'X');
    assert("X-API-Version"@.len() == 13 && "X-API-Version"@[0] == 'X');
    assert("X-Protocol"@.len() == 10 && "X-Protocol"@[0] == 'X');
    assert("X-Protocol-Version"@.len() == 18);
    assert("Server"@.len() == 6);
    assert("X-Agent-Version"@.len() == 15);
    let h0 = Seq::<Header>::empty();
    let h1 = set_header(h0, "Cache-Control"@, "no-cache"@);
    assert(h1 =~= seq![("Cache-Control"@, "no-cache"@)]);
    let h2 = set_header(h1, "Connection"@, "close"@);
    assert(h2 =~= h1.push(("Connection"@, "close"@)));
    let h3 = set_header(h2, "Content-Type"@, "application/json; charset=utf-8"@);
    assert(h3 =~= h2.push(("Content-Type"@, "application/json; charset=utf-8"@)));
    let h4 = set_header(h3, "X-Powered-By"@, "Fostrom"@);
    assert(h4 =~= h3.push(("X-Powered-By"@, "Fostrom"@)));
    let h5 = set_header(h4, "X-API-Version"@, "1"@);
    assert(h5 =~= h4.push(("X-API-Version"@, "1"@)));
    let h6 = set_header(h5, "X-Protocol"@, "Moonlight"@);
    assert(h6 =~= h5.push(("X-Protocol"@, "Moonlight"@)));
    let h7 = set_header(h6, "X-Protocol-Version"@, "1"@);
    assert(h7 =~= h6.push(("X-Protocol-Version"@, "1"@)));
    let h8 = set_header(h7, "Server"@, server_name());
    assert(h8 =~= h7.push(("Server"@, server_name())));
    let h9 = set_header(h8, "X-Agent-Version"@, agent_version());
    assert(h9 =~= h8.push(("X-Agent-Version"@, agent_version())));
    assert(h9 =~= default_headers());
}

/// The body of a failure response: a JSON object with the message under
/// `error`.
pub open spec fn failure_body(error_msg: Seq<char>) -> Seq<char> {
    "{\"error\":"@ + json_string(error_msg) + "}"@
}

/// The responses that tell of a failure.
pub struct FailureResp {}

impl FailureResp {
    /// The response with this status that tells of this failure.
    pub fn make(status_code: StatusCode, error_msg: &str) -> (resp: Resp)
        ensures
            resp.wf(),
            resp@ == (RespView {
                status_code,
                headers: default_headers(),
                body: failure_body(error_msg@),
                is_event_stream: false,
            }),
    {
        let mut body = owned("{\"error\":");
        let quoted = quote(error_msg);
        push_str(&mut body, quoted.as_str());
        push_str(&mut body, "}");
        Resp::new(status_code, body.as_str())
    }

    pub fn bad_request(error_msg: &str) -> (resp: Resp)
        ensures
            resp.wf(),
            resp@ == (RespView {
                status_code: StatusCode::BadRequest,
                headers: default_headers(),
                body: failure_body(error_msg@),
                is_event_stream: false,
            }),
    {
        Self::make(StatusCode::BadRequest, error_msg)
    }

    pub fn unauthorized(error_msg: &str) -> (resp: Resp)
        ensures
            resp.wf(),
            resp@ == (RespView {
                status_code: StatusCode::Unauthorized,
                headers: default_headers(),
                body: failure_body(error_msg@),
                is_event_stream: false,
            }),
    {
        Self::make(StatusCode::Unauthorized, error_msg)
    }

    pub fn forbidden(error_msg: &str) -> (resp: Resp)
        ensures
            resp.wf(),
            resp@ == (RespView {
                status_code: StatusCode::Forbidden,
                headers: default_headers(),
                body: failure_body(error_msg@),
                is_event_stream: false,
            }),
    {
        Self::make(StatusCode::Forbidden, error_msg)
    }

    pub fn not_found(error_msg: &str) -> (resp: Resp)
        ensures
            resp.wf(),
            resp@ == (RespView {
                status_code: StatusCode::NotFound,
                headers: default_headers(),
                body: failure_body(error_msg@),
                is_event_stream: false,
            }),
    {
        Self::make(StatusCode::NotFound, error_msg)
    }

    pub fn timeout() -> (resp: Resp)
        ensures
            resp.wf(),
            resp@ == (RespView {
                status_code: StatusCode::Timeout,
                headers: default_headers(),
                body: failure_body("Operation timed out"@),
                is_event_stream: false,
            }),
    {
        Self::make(StatusCode::Timeout, "Operation timed out")
    }

    pub fn internal_server_error(error_msg: &str) -> (resp: Resp)
        ensures
            resp.wf(),
            resp@ == (RespView {
                status_code: StatusCode::InternalServerError,
                headers: default_headers(),
                body: failure_body(error_msg@),
                is_event_stream: false,
            }),
    {
        Self::make(StatusCode::InternalServerError, error_msg)
    }

    pub fn version_not_supported() -> (resp: Resp)
        ensures
            resp.wf(),
            resp@ == (RespView {
                status_code: StatusCode::VersionNotSupported,
                headers: default_headers(),
                body: failure_body("HTTP Version Not Supported"@),
                is_event_stream: false,
            }),
    {
        Self::make(StatusCode::VersionNotSupported, "HTTP Version Not Supported")
    }
}

} // verus!
