//! Reading a request: the request line, the header lines, and what has to
//! hold of the headers before the body is read.
//!
//! The host reads from the socket; what it has read is judged here. Every
//! judgement that goes against the request comes with the response that
//! tells the caller so.

use vstd::prelude::*;
use vstd::string::*;
use vstd::utf8::*;
use crate::http_server::headers::{header_value, set_header, Header, Headers};
use crate::http_server::response::{default_headers, failure_body, FailureResp, Resp, RespView, StatusCode};
use crate::json::{json_value, opt_text, parse_value};
use crate::moonlight_socket::IoFailure;
use crate::text::{
    ascii_lowercase_of,
    chars_of,
    contains_text,
    find_char,
    first_index_of,
    is_whitespace,
    char_is_whitespace,
    lemma_first_index_of,
    lowercase_of,
    owned,
    parse_u64,
    parse_u64_spec,
    starts_with,
    str_contains,
    str_starts_with,
    string_from_utf8,
    string_of,
    texts,
    to_ascii_lowercase,
    to_lowercase,
    to_uppercase,
    trim_range,
    trimmed,
    uppercase_of,
};

verus! {

/// The longest line that is read, in bytes, without the end of the line.
pub const MAX_LINE_LENGTH: usize = 8192;

/// The largest number of headers that a request may have.
pub const MAX_HEADERS: usize = 64;

/// The longest body that is read, in bytes.
pub const MAX_BODY_LENGTH: u64 = 65_536;

/// The method of a request.
#[derive(Debug, Clone, Copy, PartialEq, Eq, PartialOrd, Ord, Hash, Structural)]
pub enum Method {
    GET,
    HEAD,
    POST,
    PUT,
    DELETE,
}

/// A request that has been read.
#[derive(Debug, Clone)]
pub struct Req {
    pub method: Method,
    pub path: String,
    pub headers: Headers,
    /// The body, as a JSON value in compact form.
    pub body: Option<String>,
}

/// The response that tells of a failure, as the contracts speak of it.
pub open spec fn failure(status_code: StatusCode, message: Seq<char>) -> RespView {
    RespView {
        status_code,
        headers: default_headers(),
        body: failure_body(message),
        is_event_stream: false,
    }
}

/// The response to a request that is not in order.
pub open spec fn bad_request(message: Seq<char>) -> RespView {
    failure(StatusCode::BadRequest, message)
}

/// What the reader of a line does after a chunk of bytes.
pub enum LineStep {
    /// The line goes on: take this many bytes as read and read more.
    More(usize),
    /// The line has ended: take this many bytes as read.
    Line(usize),
    /// The line cannot be read.
    Failed(Resp),
}

/// The step of a line reader, as the contracts speak of it.
pub enum LineStepView {
    More(int),
    Line(int),
    Failed(RespView),
}

impl View for LineStep {
    type V = LineStepView;

    open spec fn view(&self) -> LineStepView {
        match *self {
            LineStep::More(n) => LineStepView::More(n as int),
            LineStep::Line(n) => LineStepView::Line(n as int),
            LineStep::Failed(resp) => LineStepView::Failed(resp@),
        }
    }
}

/// Where the first line feed stands in the bytes, if there is one.
pub open spec fn first_line_feed(chunk: Seq<u8>) -> Option<int>
    decreases chunk.len(),
{
    if chunk.len() == 0 {
        None
    } else if chunk[0] == 10 {
        Some(0)
    } else {
        match first_line_feed(chunk.drop_first()) {
            Some(i) => Some(i + 1),
            None => None,
        }
    }
}

/// How many carriage returns stand directly before index `end`.
pub open spec fn returns_before(chunk: Seq<u8>, end: int) -> int
    decreases end,
{
    if end <= 0 || end > chunk.len() || chunk[end - 1] != 13 {
        0
    } else {
        1 + returns_before(chunk, end - 1)
    }
}

/// What a chunk of bytes does to a line that is being read: the line
/// after it, and the step.
///
/// No bytes mean that the stream has ended within the line. A chunk with
/// a line feed ends the line: the bytes before the line feed, without the
/// carriage returns at their end, join the line, and the chunk is read up
/// to the line feed. A chunk without one joins the line whole. A line
/// that would grow beyond [`MAX_LINE_LENGTH`] is refused.
pub open spec fn line_feed(line: Seq<u8>, chunk: Seq<u8>) -> (Seq<u8>, LineStepView) {
    if chunk.len() == 0 {
        if line.len() == 0 {
            (line, LineStepView::Failed(bad_request("Unexpected EOF while reading line"@)))
        } else {
            (line, LineStepView::Failed(bad_request("Unexpected EOF in line"@)))
        }
    } else {
        match first_line_feed(chunk) {
            Some(at) => {
                let end = at - returns_before(chunk, at);
                if line.len() + end > MAX_LINE_LENGTH {
                    (line, LineStepView::Failed(bad_request("Line too long"@)))
                } else {
                    (line + chunk.subrange(0, end), LineStepView::Line(at + 1))
                }
            },
            None => if line.len() + chunk.len() > MAX_LINE_LENGTH {
                (line, LineStepView::Failed(bad_request("Line too long"@)))
            } else {
                (line + chunk, LineStepView::More(chunk.len() as int))
            },
        }
    }
}

/// What a line that has been read is: nothing where it is empty, its text
/// where it is UTF-8, and a refusal where it is not.
pub open spec fn line_result(line: Seq<u8>) -> Result<Option<Seq<char>>, RespView> {
    if line.len() == 0 {
        Ok(None)
    } else if valid_utf8(line) {
        Ok(Some(decode_utf8(line)))
    } else {
        Err(bad_request("Invalid Encoding"@))
    }
}

/// The first line feed of a chunk is an index of it at which a line feed
/// stands, and none stands before.
proof fn lemma_first_line_feed(chunk: Seq<u8>)
    ensures
        match first_line_feed(chunk) {
            Some(i) => 0 <= i < chunk.len() && chunk[i] == 10 && forall|k: int|
                0 <= k < i ==> #[trigger] chunk[k] != 10,
            None => forall|k: int| 0 <= k < chunk.len() ==> #[trigger] chunk[k] != 10,
        },
    decreases chunk.len(),
{
    if chunk.len() > 0 && chunk[0] != 10 {
        let rest = chunk.drop_first();
        lemma_first_line_feed(rest);
        match first_line_feed(rest) {
            Some(i) => {
                assert(rest[i] == chunk[i + 1]);
                assert forall|k: int| 0 <= k < i + 1 implies #[trigger] chunk[k] != 10 by {
                    if k > 0 {
                        assert(rest[k - 1] == chunk[k]);
                    }
                }
            },
            None => {
                assert forall|k: int| 0 <= k < chunk.len() implies #[trigger] chunk[k] != 10 by {
                    if k > 0 {
                        assert(rest[k - 1] == chunk[k]);
                    }
                }
            },
        }
    }
}

/// The bytes of a line that is being read.
pub struct LineReader {
    line: Vec<u8>,
}

impl View for LineReader {
    type V = Seq<u8>;

    closed spec fn view(&self) -> Seq<u8> {
        self.line@
    }
}

impl LineReader {
    /// A reader at the start of a line.
    pub fn new() -> (reader: LineReader)
        ensures
            reader@ == Seq::<u8>::empty(),
    {
        LineReader { line: Vec::new() }
    }

    /// Takes a chunk of bytes that the stream has ready: see
    /// [`line_feed`].
    pub fn feed(&mut self, chunk: &[u8]) -> (step: LineStep)
        ensures
            final(self)@ == line_feed(old(self)@, chunk@).0,
            step@ == line_feed(old(self)@, chunk@).1,
    {
        if chunk.len() == 0 {
            if self.line.len() == 0 {
                return LineStep::Failed(FailureResp::bad_request("Unexpected EOF while reading line"));
            } else {
                return LineStep::Failed(FailureResp::bad_request("Unexpected EOF in line"));
            }
        }
        proof {
            lemma_first_line_feed(chunk@);
        }
        let mut at: usize = 0;
        while at < chunk.len() && chunk[at] != 10
            invariant
                at <= chunk.len(),
                forall|k: int| 0 <= k < at ==> #[trigger] chunk@[k] != 10,
            decreases chunk.len() - at,
        {
            at += 1;
        }
        if at == chunk.len() {
            if chunk.len() > MAX_LINE_LENGTH || self.line.len() > MAX_LINE_LENGTH - chunk.len() {
                return LineStep::Failed(FailureResp::bad_request("Line too long"));
            }
            self.line.extend_from_slice(chunk);
            assert(self.line@ =~= old(self)@ + chunk@);
            return LineStep::More(at);
        }
        let mut end: usize = at;
        while end > 0 && chunk[end - 1] == 13
            invariant
                end <= at < chunk.len(),
                returns_before(chunk@, at as int) == (at - end) + returns_before(chunk@, end as int),
            decreases end,
        {
            end -= 1;
        }
        if end > MAX_LINE_LENGTH || self.line.len() > MAX_LINE_LENGTH - end {
            return LineStep::Failed(FailureResp::bad_request("Line too long"));
        }
        self.line.extend_from_slice(vstd::slice::slice_subrange(chunk, 0, end));
        assert(self.line@ =~= old(self)@ + chunk@.subrange(0, end as int));
        LineStep::Line(at + 1)
    }

    /// The line that has been read: see [`line_result`].
    pub fn finish(self) -> (r: Result<Option<String>, Resp>)
        ensures
            match r {
                Ok(line) => line_result(self@) == Ok::<Option<Seq<char>>, RespView>(opt_text(line)),
                Err(resp) => line_result(self@) == Err::<Option<Seq<char>>, RespView>(resp@),
            },
    {
        if self.line.len() == 0 {
            return Ok(None);
        }
        match string_from_utf8(self.line) {
            Some(text) => {
                proof {
                    encode_utf8_decode_utf8(text@);
                }
                Ok(Some(text))
            },
            None => Err(FailureResp::bad_request("Invalid Encoding")),
        }
    }
}

/// What a failed read of a line means: an interrupted read is made again;
/// every other failure is told to the caller.
pub open spec fn read_failure_spec(failure: IoFailure) -> Option<RespView> {
    match failure {
        IoFailure::Interrupted => None,
        IoFailure::WouldBlock => Some(bad_request("Timed out reading line"@)),
        IoFailure::TimedOut => Some(bad_request("Timed out reading line"@)),
        IoFailure::Other => Some(bad_request("Failed reading line"@)),
    }
}

/// The response for a failed read of a line, or nothing where the read is
/// to be made again.
pub fn read_failure(failure: IoFailure) -> (r: Option<Resp>)
    ensures
        match r {
            Some(resp) => read_failure_spec(failure) == Some(resp@),
            None => read_failure_spec(failure) is None,
        },
{
    match failure {
        IoFailure::Interrupted => None,
        IoFailure::WouldBlock => Some(FailureResp::bad_request("Timed out reading line")),
        IoFailure::TimedOut => Some(FailureResp::bad_request("Timed out reading line")),
        IoFailure::Other => Some(FailureResp::bad_request("Failed reading line")),
    }
}

/// The words of a text: the longest runs of characters that are no white
/// space, in order.
pub open spec fn words(s: Seq<char>) -> Seq<Seq<char>>
    decreases s.len(),
{
    if s.len() == 0 {
        Seq::empty()
    } else {
        let before = words(s.drop_last());
        if is_whitespace(s.last()) {
            before
        } else if s.len() >= 2 && !is_whitespace(s[s.len() - 2]) && before.len() > 0 {
            before.update(before.len() - 1, before.last().push(s.last()))
        } else {
            before.push(seq![s.last()])
        }
    }
}

/// The word at this place, or the empty text where there are fewer words.
pub open spec fn word(s: Seq<char>, index: int) -> Seq<char> {
    if 0 <= index < words(s).len() {
        words(s)[index]
    } else {
        Seq::empty()
    }
}

/// The words of a string: see [`words`].
pub fn split_whitespace(s: &str) -> (r: Vec<String>)
    ensures
        texts(r@) == words(s@),
{
    let chars = chars_of(s);
    let mut done: Vec<String> = Vec::new();
    let mut current = String::new();
    let mut in_word = false;
    let mut i: usize = 0;
    assert(chars@.subrange(0, 0) =~= Seq::<char>::empty());
    assert(texts(done@) =~= words(chars@.subrange(0, 0)));
    while i < chars.len()
        invariant
            i <= chars.len(),
            in_word == (i > 0 && !is_whitespace(chars@[i - 1])),
            !in_word ==> texts(done@) == words(chars@.subrange(0, i as int)),
            in_word ==> texts(done@).push(current@) == words(chars@.subrange(0, i as int)),
        decreases chars.len() - i,
    {
        let c = chars[i];
        let ghost before = chars@.subrange(0, i as int);
        let ghost after = chars@.subrange(0, i + 1);
        proof {
            assert(after.drop_last() =~= before);
            assert(after.last() == c);
            if i > 0 {
                assert(after[after.len() - 2] == chars@[i - 1]);
            }
        }
        if char_is_whitespace(c) {
            if in_word {
                let ghost t = texts(done@);
                done.push(current);
                assert(texts(done@) =~= t.push(current@));
                current = String::new();
            }
            in_word = false;
        } else {
            if in_word {
                let ghost w = words(before);
                current.push(c);
                assert(texts(done@).push(current@) =~= w.update(w.len() - 1, w.last().push(c)));
            } else {
                current = String::new();
                current.push(c);
                assert(current@ =~= seq![c]);
            }
            in_word = true;
        }
        i += 1;
    }
    assert(chars@.subrange(0, chars@.len() as int) =~= chars@);
    if in_word {
        let ghost t = texts(done@);
        done.push(current);
        assert(texts(done@) =~= t.push(current@));
    }
    done
}

/// The method that a word names, if any.
pub open spec fn method_named(name: Seq<char>) -> Option<Method> {
    if name == "GET"@ {
        Some(Method::GET)
    } else if name == "HEAD"@ {
        Some(Method::HEAD)
    } else if name == "POST"@ {
        Some(Method::POST)
    } else if name == "PUT"@ {
        Some(Method::PUT)
    } else if name == "DELETE"@ {
        Some(Method::DELETE)
    } else {
        None
    }
}

/// What a request line says. Its first three words are the method, the
/// path and the version; method and version are read in upper case. The
/// version has to be HTTP/1.1, the path has to begin with a slash, and
/// the method has to be one of the five that are known; they are looked
/// at in this order.
pub open spec fn request_line(line: Seq<char>) -> Result<(Method, Seq<char>), RespView> {
    let method = uppercase_of(word(line, 0));
    let path = word(line, 1);
    let version = uppercase_of(word(line, 2));
    if version != "HTTP/1.1"@ {
        Err(failure(StatusCode::VersionNotSupported, "HTTP Version Not Supported"@))
    } else if path.len() == 0 || path[0] != '/' {
        Err(bad_request("Invalid HTTP Path"@))
    } else {
        match method_named(method) {
            Some(m) => Ok((m, path)),
            None => Err(bad_request("Unsupported HTTP Method"@)),
        }
    }
}

fn method_of(name: &String) -> (r: Option<Method>)
    ensures
        r == method_named(name@),
{
    if *name == owned("GET") {
        Some(Method::GET)
    } else if *name == owned("HEAD") {
        Some(Method::HEAD)
    } else if *name == owned("POST") {
        Some(Method::POST)
    } else if *name == owned("PUT") {
        Some(Method::PUT)
    } else if *name == owned("DELETE") {
        Some(Method::DELETE)
    } else {
        None
    }
}

/// Reads a request line: see [`request_line`].
pub fn parse_request_line(line: &str) -> (r: Result<(Method, String), Resp>)
    ensures
        match r {
            Ok((method, path)) => request_line(line@) == Ok::<(Method, Seq<char>), RespView>(
                (method, path@),
            ),
            Err(resp) => request_line(line@) == Err::<(Method, Seq<char>), RespView>(resp@),
        },
{
    let mut parts = split_whitespace(line);
    let ghost all = texts(parts@);
    let empty = String::new();
    let http_method = to_uppercase(if parts.len() > 0 {
        parts[0].as_str()
    } else {
        empty.as_str()
    });
    let http_version = to_uppercase(if parts.len() > 2 {
        parts[2].as_str()
    } else {
        empty.as_str()
    });
    assert(http_method@ == uppercase_of(word(line@, 0))) by {
        if parts@.len() > 0 {
            assert(all[0] == parts@[0]@);
        }
    }
    assert(http_version@ == uppercase_of(word(line@, 2))) by {
        if parts@.len() > 2 {
            assert(all[2] == parts@[2]@);
        }
    }
    let http_path = if parts.len() > 1 {
        assert(all[1] == parts@[1]@);
        parts.swap_remove(1)
    } else {
        String::new()
    };
    assert(http_path@ == word(line@, 1));
    if !(http_version == owned("HTTP/1.1")) {
        return Err(FailureResp::version_not_supported());
    }
    let path_chars = chars_of(http_path.as_str());
    if path_chars.len() == 0 || path_chars[0] != '/' {
        return Err(FailureResp::bad_request("Invalid HTTP Path"));
    }
    match method_of(&http_method) {
        Some(method) => Ok((method, http_path)),
        None => Err(FailureResp::bad_request("Unsupported HTTP Method")),
    }
}

/// What a header line says: the name before the first colon, trimmed and
/// in lower case, and the value after it, trimmed. A line without a colon
/// and a line without a name are refused.
pub open spec fn header_line(line: Seq<char>) -> Result<Header, RespView> {
    match first_index_of(line, ':') {
        None => Err(bad_request("Malformed header line"@)),
        Some(at) => {
            let name = ascii_lowercase_of(trimmed(line.subrange(0, at)));
            let value = trimmed(line.subrange(at + 1, line.len() as int));
            if name.len() == 0 {
                Err(bad_request("Empty header name"@))
            } else {
                Ok((name, value))
            }
        },
    }
}

/// Reads a header line: see [`header_line`].
pub fn parse_header_line(line: &str) -> (r: Result<(String, String), Resp>)
    ensures
        match r {
            Ok((name, value)) => header_line(line@) == Ok::<Header, RespView>((name@, value@)),
            Err(resp) => header_line(line@) == Err::<Header, RespView>(resp@),
        },
{
    let chars = chars_of(line);
    assert(chars@.subrange(0, chars@.len() as int) =~= chars@);
    let at = match find_char(&chars, 0, ':') {
        Some(at) => at,
        None => {
            return Err(FailureResp::bad_request("Malformed header line"));
        },
    };
    proof {
        lemma_first_index_of(chars@, ':');
    }
    let (name_from, name_to) = trim_range(&chars, 0, at);
    let (value_from, value_to) = trim_range(&chars, at + 1, chars.len());
    let raw_name = string_of(&chars, name_from, name_to);
    let name = to_ascii_lowercase(raw_name.as_str());
    let value = string_of(&chars, value_from, value_to);
    if name.as_str().is_empty() {
        return Err(FailureResp::bad_request("Empty header name"));
    }
    Ok((name, value))
}

/// What a header line does to the headers read so far: the header that it
/// names is set, unless the line is refused or the request has
/// [`MAX_HEADERS`] headers already.
pub open spec fn headers_after(headers: Seq<Header>, line: Seq<char>) -> Result<
    Seq<Header>,
    RespView,
> {
    match header_line(line) {
        Err(resp) => Err(resp),
        Ok((name, value)) => if headers.len() >= MAX_HEADERS {
            Err(bad_request("Too many headers"@))
        } else {
            Ok(set_header(headers, name, value))
        },
    }
}

/// Takes a header line into the headers of a request: see
/// [`headers_after`]. The headers stay as they were where the line is
/// refused.
pub fn parse_request_headers(headers: &mut Headers, line: &str) -> (r: Result<(), Resp>)
    requires
        old(headers).wf(),
    ensures
        final(headers).wf(),
        match r {
            Ok(()) => headers_after(old(headers)@, line@) == Ok::<Seq<Header>, RespView>(
                final(headers)@,
            ),
            Err(resp) => headers_after(old(headers)@, line@) == Err::<Seq<Header>, RespView>(resp@)
                && final(headers)@ == old(headers)@,
        },
{
    let (name, value) = match parse_header_line(line) {
        Ok(pair) => pair,
        Err(resp) => {
            return Err(resp);
        },
    };
    if headers.len() >= MAX_HEADERS {
        return Err(FailureResp::bad_request("Too many headers"));
    }
    headers.set(name.as_str(), value.as_str());
    Ok(())
}

/// Whether a request is answered without a look at its headers: the
/// status at the root and the request to stop the agent are.
pub open spec fn is_open_route(method: Method, path: Seq<char>) -> bool {
    (method == Method::GET && path == "/"@) || (method == Method::DELETE && path == "/stop-agent"@)
}

/// Whether a request is answered without a look at its headers.
pub fn skips_validation(method: Method, path: &String) -> (r: bool)
    ensures
        r == is_open_route(method, path@),
{
    (method == Method::GET && *path == owned("/")) || (method == Method::DELETE && *path == owned(
        "/stop-agent",
    ))
}

/// Whether the headers name the fleet and the device that the agent
/// serves: the response that says what is wrong, if anything is.
pub open spec fn headers_verdict(
    headers: Seq<Header>,
    fleet_id: Seq<char>,
    device_id: Seq<char>,
) -> Option<RespView> {
    match header_value(headers, "x-fleet-id"@) {
        None => Some(bad_request("Header X-Fleet-ID is missing"@)),
        Some(fleet) => if fleet.len() == 0 {
            Some(bad_request("Header X-Fleet-ID is empty"@))
        } else if fleet != fleet_id {
            Some(failure(StatusCode::Unauthorized, "Fleet ID mismatch"@))
        } else {
            match header_value(headers, "x-device-id"@) {
                None => Some(bad_request("Header X-Device-ID is missing"@)),
                Some(device) => if device.len() == 0 {
                    Some(bad_request("Header X-Device-ID is empty"@))
                } else if device != device_id {
                    Some(failure(StatusCode::Unauthorized, "Device ID mismatch"@))
                } else {
                    None
                },
            }
        },
    }
}

/// Checks that the headers name the fleet and the device that the agent
/// serves: see [`headers_verdict`].
pub fn validate_headers(headers: &Headers, fleet_id: &str, device_id: &str) -> (r: Result<(), Resp>)
    requires
        headers.wf(),
    ensures
        match r {
            Ok(()) => headers_verdict(headers@, fleet_id@, device_id@) is None,
            Err(resp) => headers_verdict(headers@, fleet_id@, device_id@) == Some(resp@),
        },
{
    let fleet = match headers.get("x-fleet-id") {
        Some(fleet) => fleet,
        None => {
            return Err(FailureResp::bad_request("Header X-Fleet-ID is missing"));
        },
    };
    if fleet.is_empty() {
        return Err(FailureResp::bad_request("Header X-Fleet-ID is empty"));
    }
    if !(owned(fleet) == owned(fleet_id)) {
        return Err(FailureResp::unauthorized("Fleet ID mismatch"));
    }
    let device = match headers.get("x-device-id") {
        Some(device) => device,
        None => {
            return Err(FailureResp::bad_request("Header X-Device-ID is missing"));
        },
    };
    if device.is_empty() {
        return Err(FailureResp::bad_request("Header X-Device-ID is empty"));
    }
    if !(owned(device) == owned(device_id)) {
        return Err(FailureResp::unauthorized("Device ID mismatch"));
    }
    Ok(())
}

/// How long the body is that has to be read, as the headers say: none
/// where no length or the length zero is given. A chunked body, a length
/// that is no number or is above [`MAX_BODY_LENGTH`], and a body that is
/// not announced as JSON are refused.
pub open spec fn body_length(headers: Seq<Header>) -> Result<Option<u64>, RespView> {
    if header_value(headers, "transfer-encoding"@) matches Some(te) && contains_text(
        ascii_lowercase_of(te),
        "chunked"@,
    ) {
        Err(bad_request("Transfer-Encoding: chunked not supported"@))
    } else {
        match header_value(headers, "content-length"@) {
            None => Ok(None),
            Some(text) => match parse_u64_spec(text) {
                None => Err(bad_request("Invalid Content-Length Header"@)),
                Some(length) => if length == 0 {
                    Ok(None)
                } else if length > MAX_BODY_LENGTH {
                    Err(bad_request("Request Body Too Large"@))
                } else {
                    match header_value(headers, "content-type"@) {
                        None => Err(bad_request("Missing Content-Type Header"@)),
                        Some(content_type) => if !starts_with(
                            lowercase_of(content_type),
                            "application/json"@,
                        ) {
                            Err(bad_request("Content-Type Must Be application/json"@))
                        } else {
                            Ok(Some(length))
                        },
                    }
                },
            },
        }
    }
}

/// How long the body is that has to be read: see [`body_length`].
pub fn parse_request_body(headers: &Headers) -> (r: Result<Option<u64>, Resp>)
    requires
        headers.wf(),
    ensures
        match r {
            Ok(length) => body_length(headers@) == Ok::<Option<u64>, RespView>(length),
            Err(resp) => body_length(headers@) == Err::<Option<u64>, RespView>(resp@),
        },
{
    match headers.get("transfer-encoding") {
        Some(te) => {
            let lower = to_ascii_lowercase(te);
            if str_contains(lower.as_str(), "chunked") {
                return Err(FailureResp::bad_request("Transfer-Encoding: chunked not supported"));
            }
        },
        None => {},
    }
    let text = match headers.get("content-length") {
        Some(text) => text,
        None => {
            return Ok(None);
        },
    };
    let length = match parse_u64(text) {
        Some(length) => length,
        None => {
            return Err(FailureResp::bad_request("Invalid Content-Length Header"));
        },
    };
    if length == 0 {
        return Ok(None);
    }
    if length > MAX_BODY_LENGTH {
        return Err(FailureResp::bad_request("Request Body Too Large"));
    }
    let content_type = match headers.get("content-type") {
        Some(content_type) => content_type,
        None => {
            return Err(FailureResp::bad_request("Missing Content-Type Header"));
        },
    };
    let lower = to_lowercase(content_type);
    if !str_starts_with(lower.as_str(), "application/json") {
        return Err(FailureResp::bad_request("Content-Type Must Be application/json"));
    }
    Ok(Some(length))
}

/// The body that the bytes hold: a JSON value, in compact form. Bytes
/// that are no JSON value are refused.
pub open spec fn body_value(bytes: Seq<u8>) -> Result<Seq<char>, RespView> {
    if valid_utf8(bytes) && json_value(decode_utf8(bytes)) is Some {
        Ok(json_value(decode_utf8(bytes))->0)
    } else {
        Err(bad_request("Failed to parse JSON body"@))
    }
}

/// Reads the body of a request: see [`body_value`].
pub fn parse_body(bytes: Vec<u8>) -> (r: Result<String, Resp>)
    ensures
        match r {
            Ok(value) => body_value(bytes@) == Ok::<Seq<char>, RespView>(value@),
            Err(resp) => body_value(bytes@) == Err::<Seq<char>, RespView>(resp@),
        },
{
    let text = match string_from_utf8(bytes) {
        Some(text) => text,
        None => {
            return Err(FailureResp::bad_request("Failed to parse JSON body"));
        },
    };
    proof {
        encode_utf8_decode_utf8(text@);
    }
    match parse_value(text.as_str()) {
        Some(value) => Ok(value),
        None => Err(FailureResp::bad_request("Failed to parse JSON body")),
    }
}

/// The response for a body that could not be read from the stream.
pub fn body_read_failed() -> (resp: Resp)
    ensures
        resp@ == bad_request("Failed to read request body"@),
{
    FailureResp::bad_request("Failed to read request body")
}

/// The response for a request that ends before its first line.
pub fn empty_request() -> (resp: Resp)
    ensures
        resp@ == bad_request("Empty Request"@),
{
    FailureResp::bad_request("Empty Request")
}


/// A request, as the contracts speak of it.
pub struct ReqView {
    pub method: Method,
    pub path: Seq<char>,
    pub headers: Seq<Header>,
    pub body: Option<Seq<char>>,
}

impl View for Req {
    type V = ReqView;

    open spec fn view(&self) -> ReqView {
        ReqView {
            method: self.method,
            path: self.path@,
            headers: self.headers@,
            body: opt_text(self.body),
        }
    }
}

/// How far the reading of a request has got.
pub enum Progress {
    /// Read the next line and tell of it.
    NeedLine,
    /// The request is read.
    Done(Req),
    /// Read a body of this length and tell of it.
    NeedBody(Req, u64),
    /// The request is refused with this response.
    Failed(Resp),
}

/// The progress of a reader, as the contracts speak of it.
pub enum ProgressView {
    NeedLine,
    Done(ReqView),
    NeedBody(ReqView, u64),
    Failed(RespView),
}

impl View for Progress {
    type V = ProgressView;

    open spec fn view(&self) -> ProgressView {
        match *self {
            Progress::NeedLine => ProgressView::NeedLine,
            Progress::Done(req) => ProgressView::Done(req@),
            Progress::NeedBody(req, length) => ProgressView::NeedBody(req@, length),
            Progress::Failed(resp) => ProgressView::Failed(resp@),
        }
    }
}

/// What the reader of a request holds, as the contracts speak of it: the
/// request line, once it is read, and the headers read so far.
pub struct ParserView {
    pub line: Option<(Method, Seq<char>)>,
    pub headers: Seq<Header>,
}

/// The reader of a request: it is told of the lines of the request one by
/// one, and says when the request is read.
pub struct RequestParser {
    line: Option<(Method, String)>,
    headers: Headers,
}

impl View for RequestParser {
    type V = ParserView;

    closed spec fn view(&self) -> ParserView {
        ParserView {
            line: match self.line {
                Some((method, path)) => Some((method, path@)),
                None => None,
            },
            headers: self.headers@,
        }
    }
}

/// What the end of the headers means for the request that was read: a
/// request for the status at the root or to stop the agent is taken as it
/// is; every other request has to name the fleet and the device that the
/// agent serves, and may announce a body.
pub open spec fn end_of_headers(
    method: Method,
    path: Seq<char>,
    headers: Seq<Header>,
    fleet_id: Seq<char>,
    device_id: Seq<char>,
) -> ProgressView {
    let req = ReqView { method, path, headers, body: None };
    if is_open_route(method, path) {
        ProgressView::Done(req)
    } else {
        match headers_verdict(headers, fleet_id, device_id) {
            Some(resp) => ProgressView::Failed(resp),
            None => match body_length(headers) {
                Err(resp) => ProgressView::Failed(resp),
                Ok(None) => ProgressView::Done(req),
                Ok(Some(length)) => ProgressView::NeedBody(req, length),
            },
        }
    }
}

/// What a line does to the reading of a request; `None` stands for the
/// empty line. The first line is the request line; the lines after it are
/// header lines, up to the empty line that ends them.
pub open spec fn request_step(
    parser: ParserView,
    line: Option<Seq<char>>,
    fleet_id: Seq<char>,
    device_id: Seq<char>,
) -> (ParserView, ProgressView) {
    match parser.line {
        None => match line {
            None => (parser, ProgressView::Failed(bad_request("Empty Request"@))),
            Some(text) => match request_line(text) {
                Err(resp) => (parser, ProgressView::Failed(resp)),
                Ok(first) => (ParserView { line: Some(first), ..parser }, ProgressView::NeedLine),
            },
        },
        Some((method, path)) => match line {
            Some(text) => match headers_after(parser.headers, text) {
                Err(resp) => (parser, ProgressView::Failed(resp)),
                Ok(headers) => (ParserView { headers, ..parser }, ProgressView::NeedLine),
            },
            None => (parser, end_of_headers(method, path, parser.headers, fleet_id, device_id)),
        },
    }
}

impl RequestParser {
    /// Whether no header name occurs twice.
    pub open spec fn wf(&self) -> bool {
        crate::http_server::headers::distinct_names(self@.headers)
    }

    /// A reader at the start of a request.
    pub fn new() -> (parser: RequestParser)
        ensures
            parser.wf(),
            parser@ == (ParserView { line: None, headers: Seq::empty() }),
    {
        RequestParser { line: None, headers: Headers::new() }
    }

    /// Tells the reader of the next line of the request, `None` for the
    /// empty line: see [`request_step`]. `fleet_id` and `device_id` are
    /// those that the agent serves.
    pub fn parse_request(&mut self, line: Option<&str>, fleet_id: &str, device_id: &str) -> (progress:
        Progress)
        requires
            old(self).wf(),
        ensures
            final(self).wf(),
            final(self)@ == request_step(
                old(self)@,
                match line {
                    Some(text) => Some(text@),
                    None => None,
                },
                fleet_id@,
                device_id@,
            ).0,
            progress@ == request_step(
                old(self)@,
                match line {
                    Some(text) => Some(text@),
                    None => None,
                },
                fleet_id@,
                device_id@,
            ).1,
    {
        match &self.line {
            None => {
                let text = match line {
                    Some(text) => text,
                    None => {
                        return Progress::Failed(empty_request());
                    },
                };
                match parse_request_line(text) {
                    Ok(first) => {
                        self.line = Some(first);
                        Progress::NeedLine
                    },
                    Err(resp) => Progress::Failed(resp),
                }
            },
            Some((method, path)) => {
                match line {
                    Some(text) => {
                        match parse_request_headers(&mut self.headers, text) {
                            Ok(()) => Progress::NeedLine,
                            Err(resp) => Progress::Failed(resp),
                        }
                    },
                    None => {
                        let method = *method;
                        let path = path.clone();
                        let headers = self.headers.copy();
                        if skips_validation(method, &path) {
                            return Progress::Done(Req { method, path, headers, body: None });
                        }
                        match validate_headers(&headers, fleet_id, device_id) {
                            Err(resp) => {
                                return Progress::Failed(resp);
                            },
                            Ok(()) => {},
                        }
                        match parse_request_body(&headers) {
                            Err(resp) => Progress::Failed(resp),
                            Ok(None) => Progress::Done(Req { method, path, headers, body: None }),
                            Ok(Some(length)) => Progress::NeedBody(
                                Req { method, path, headers, body: None },
                                length,
                            ),
                        }
                    },
                }
            },
        }
    }
}

/// The request with the body that was read for it, or the response that
/// refuses the body: see [`body_value`].
pub fn with_body(req: Req, bytes: Vec<u8>) -> (r: Result<Req, Resp>)
    ensures
        match r {
            Ok(full) => body_value(bytes@) is Ok && full@ == (ReqView {
                body: Some(body_value(bytes@)->Ok_0),
                ..req@
            }),
            Err(resp) => body_value(bytes@) == Err::<Seq<char>, RespView>(resp@),
        },
{
    match parse_body(bytes) {
        Ok(value) => Ok(
            Req { method: req.method, path: req.path, headers: req.headers, body: Some(value) },
        ),
        Err(resp) => Err(resp),
    }
}

} // verus!
