//! Which command a request stands for.

use vstd::prelude::*;
use vstd::string::*;
use crate::client_logic::ClientLogic;
use crate::creds::is_alnum;
use crate::http_server::request::{bad_request, failure, Method};
use crate::http_server::response::{FailureResp, Resp, RespView, StatusCode};
use crate::protocol::{GeneralErrors, MailAckType, PulseType};
use crate::text::{
    chars_of,
    matches_at,
    occurs_at,
    parse_u64_spec,
    starts_with,
    string_of,
    trim_range,
    trimmed,
};

verus! {

/// What a request asks for.
pub enum Action {
    /// The status of the agent.
    Status,
    /// An empty answer.
    Head,
    /// Stop the agent.
    StopAgent,
    /// Open the stream of events.
    EventStream,
    /// Fetch the next mail; the flag asks for the header only.
    MailboxNext(bool),
    /// Acknowledge, reject or requeue the mail with this id.
    MailOp(MailAckType, u64),
    /// Send a pulse of this type and name, with the body as payload.
    SendPulse(PulseType, String),
    /// Nothing that the agent can do: answer with this response.
    Reject(Resp),
}

/// An action, as the contracts speak of it.
pub enum ActionView {
    Status,
    Head,
    StopAgent,
    EventStream,
    MailboxNext(bool),
    MailOp(MailAckType, u64),
    SendPulse(PulseType, Seq<char>),
    Reject(RespView),
}

impl View for Action {
    type V = ActionView;

    open spec fn view(&self) -> ActionView {
        match *self {
            Action::Status => ActionView::Status,
            Action::Head => ActionView::Head,
            Action::StopAgent => ActionView::StopAgent,
            Action::EventStream => ActionView::EventStream,
            Action::MailboxNext(header_only) => ActionView::MailboxNext(header_only),
            Action::MailOp(ack_type, mail_id) => ActionView::MailOp(ack_type, mail_id),
            Action::SendPulse(pulse_type, name) => ActionView::SendPulse(pulse_type, name@),
            Action::Reject(resp) => ActionView::Reject(resp@),
        }
    }
}

/// Whether a character may stand in the name of a pulse: letters and
/// digits of ASCII, the underscore and the hyphen.
pub open spec fn is_name_char(c: char) -> bool {
    is_alnum(c) || c == '_' || c == '-'
}

/// Whether a text is the name of a pulse: between one and 255 characters,
/// each of which may stand in a name.
pub open spec fn valid_pulse_name(name: Seq<char>) -> bool {
    &&& 0 < name.len() <= 255
    &&& forall|i: int| 0 <= i < name.len() ==> is_name_char(#[trigger] name[i])
}

/// The action for an operation on a mail, whose id follows the prefix of
/// the path as a decimal numeral.
pub open spec fn mail_op_action(ack_type: MailAckType, id_text: Seq<char>) -> ActionView {
    match parse_u64_spec(id_text) {
        Some(mail_id) => ActionView::MailOp(ack_type, mail_id),
        None => ActionView::Reject(bad_request(GeneralErrors::InvalidPulseID.text())),
    }
}

/// The action for a pulse, whose name follows the prefix of the path. The
/// name is judged without the white space around it and sent as it is.
pub open spec fn send_pulse_action(pulse_type: PulseType, name: Seq<char>) -> ActionView {
    if valid_pulse_name(trimmed(name)) {
        ActionView::SendPulse(pulse_type, name)
    } else {
        ActionView::Reject(bad_request("Invalid Pulse Name"@))
    }
}

/// What follows a prefix in a text.
pub open spec fn after_prefix(path: Seq<char>, prefix: Seq<char>) -> Seq<char> {
    path.subrange(prefix.len() as int, path.len() as int)
}

/// The action that a request stands for, by its method and its path.
pub open spec fn route_spec(method: Method, path: Seq<char>) -> ActionView {
    if method == Method::GET && path == "/"@ {
        ActionView::Status
    } else if method == Method::HEAD && path == "/"@ {
        ActionView::Head
    } else if method == Method::DELETE && path == "/stop-agent"@ {
        ActionView::StopAgent
    } else if method == Method::GET && path == "/events"@ {
        ActionView::EventStream
    } else if method == Method::GET && path == "/mailbox/next"@ {
        ActionView::MailboxNext(false)
    } else if method == Method::HEAD && path == "/mailbox/next"@ {
        ActionView::MailboxNext(true)
    } else if method == Method::PUT && starts_with(path, "/mailbox/ack/"@) {
        mail_op_action(MailAckType::Ack, after_prefix(path, "/mailbox/ack/"@))
    } else if method == Method::PUT && starts_with(path, "/mailbox/reject/"@) {
        mail_op_action(MailAckType::Reject, after_prefix(path, "/mailbox/reject/"@))
    } else if method == Method::PUT && starts_with(path, "/mailbox/requeue/"@) {
        mail_op_action(MailAckType::Requeue, after_prefix(path, "/mailbox/requeue/"@))
    } else if method == Method::POST && starts_with(path, "/pulse/datapoint/"@) {
        send_pulse_action(PulseType::Data, after_prefix(path, "/pulse/datapoint/"@))
    } else if method == Method::POST && starts_with(path, "/pulse/msg/"@) {
        send_pulse_action(PulseType::Msg, after_prefix(path, "/pulse/msg/"@))
    } else if method == Method::POST && starts_with(path, "/pulse/system/"@) {
        send_pulse_action(PulseType::System, after_prefix(path, "/pulse/system/"@))
    } else {
        ActionView::Reject(failure(StatusCode::NotFound, "Not Found"@))
    }
}

/// Whether the characters from `from` up to `to` are the name of a pulse.
fn valid_name_range(chars: &Vec<char>, from: usize, to: usize) -> (r: bool)
    requires
        from <= to <= chars@.len(),
    ensures
        r == valid_pulse_name(chars@.subrange(from as int, to as int)),
{
    let ghost name = chars@.subrange(from as int, to as int);
    if to - from == 0 || to - from > 255 {
        return false;
    }
    let mut i: usize = from;
    while i < to
        invariant
            from <= i <= to <= chars@.len(),
            name == chars@.subrange(from as int, to as int),
            forall|k: int| 0 <= k < i - from ==> is_name_char(#[trigger] name[k]),
        decreases to - i,
    {
        let c = chars[i];
        assert(name[i - from] == c);
        let ok = ('0' <= c && c <= '9') || ('a' <= c && c <= 'z') || ('A' <= c && c <= 'Z') || c
            == '_' || c == '-';
        if !ok {
            return false;
        }
        i += 1;
    }
    true
}

/// Whether a text is the name of a pulse.
pub fn is_valid_pulse_name(name: &str) -> (r: bool)
    ensures
        r == valid_pulse_name(name@),
{
    let chars = chars_of(name);
    assert(chars@.subrange(0, chars@.len() as int) =~= chars@);
    valid_name_range(&chars, 0, chars.len())
}

fn is_text(chars: &Vec<char>, text: &str) -> (r: bool)
    ensures
        r == (chars@ == text@),
{
    let wanted = chars_of(text);
    if chars.len() != wanted.len() {
        return false;
    }
    let r = matches_at(chars, &wanted, 0);
    assert(chars@.subrange(0, chars@.len() as int) =~= chars@);
    r
}

fn has_prefix(chars: &Vec<char>, prefix: &str) -> (r: Option<usize>)
    ensures
        match r {
            Some(n) => starts_with(chars@, prefix@) && n == prefix@.len(),
            None => !starts_with(chars@, prefix@),
        },
{
    let wanted = chars_of(prefix);
    if matches_at(chars, &wanted, 0) {
        Some(wanted.len())
    } else {
        None
    }
}

fn exec_mail_op(ack_type: MailAckType, chars: &Vec<char>, from: usize) -> (action: Action)
    requires
        from <= chars@.len(),
    ensures
        action@ == mail_op_action(ack_type, chars@.subrange(from as int, chars@.len() as int)),
{
    let id_text = string_of(chars, from, chars.len());
    match ClientLogic::<u8>::to_pulse_id(id_text.as_str()) {
        Ok(mail_id) => Action::MailOp(ack_type, mail_id),
        Err(e) => {
            let message = e.to_string();
            Action::Reject(FailureResp::bad_request(message.as_str()))
        },
    }
}

fn exec_send_pulse(pulse_type: PulseType, chars: &Vec<char>, from: usize) -> (action: Action)
    requires
        from <= chars@.len(),
    ensures
        action@ == send_pulse_action(pulse_type, chars@.subrange(from as int, chars@.len() as int)),
{
    let (start, end) = trim_range(chars, from, chars.len());
    if valid_name_range(chars, start, end) {
        Action::SendPulse(pulse_type, string_of(chars, from, chars.len()))
    } else {
        Action::Reject(FailureResp::bad_request("Invalid Pulse Name"))
    }
}

/// The action that a request stands for: see [`route_spec`].
pub fn route(method: Method, path: &str) -> (action: Action)
    ensures
        action@ == route_spec(method, path@),
{
    let chars = chars_of(path);
    if method == Method::GET && is_text(&chars, "/") {
        return Action::Status;
    }
    if method == Method::HEAD && is_text(&chars, "/") {
        return Action::Head;
    }
    if method == Method::DELETE && is_text(&chars, "/stop-agent") {
        return Action::StopAgent;
    }
    if method == Method::GET && is_text(&chars, "/events") {
        return Action::EventStream;
    }
    if method == Method::GET && is_text(&chars, "/mailbox/next") {
        return Action::MailboxNext(false);
    }
    if method == Method::HEAD && is_text(&chars, "/mailbox/next") {
        return Action::MailboxNext(true);
    }
    if method == Method::PUT {
        match has_prefix(&chars, "/mailbox/ack/") {
            Some(n) => {
                return exec_mail_op(MailAckType::Ack, &chars, n);
            },
            None => {},
        }
        match has_prefix(&chars, "/mailbox/reject/") {
            Some(n) => {
                return exec_mail_op(MailAckType::Reject, &chars, n);
            },
            None => {},
        }
        match has_prefix(&chars, "/mailbox/requeue/") {
            Some(n) => {
                return exec_mail_op(MailAckType::Requeue, &chars, n);
            },
            None => {},
        }
    }
    if method == Method::POST {
        match has_prefix(&chars, "/pulse/datapoint/") {
            Some(n) => {
                return exec_send_pulse(PulseType::Data, &chars, n);
            },
            None => {},
        }
        match has_prefix(&chars, "/pulse/msg/") {
            Some(n) => {
                return exec_send_pulse(PulseType::Msg, &chars, n);
            },
            None => {},
        }
        match has_prefix(&chars, "/pulse/system/") {
            Some(n) => {
                return exec_send_pulse(PulseType::System, &chars, n);
            },
            None => {},
        }
    }
    Action::Reject(FailureResp::not_found("Not Found"))
}

} // verus!
