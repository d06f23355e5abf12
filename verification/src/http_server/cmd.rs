//! The answers to the commands: what a caller of the HTTP interface is
//! told when the reply to its command has come, or has not.

use vstd::prelude::*;
use vstd::string::*;
use crate::client_logic::{ReplyView, ReturnChanResult};
use crate::http_server::headers::set_header;
use crate::http_server::request::failure;
use crate::http_server::response::{
    bool_str,
    bool_text,
    default_headers,
    FailureResp,
    Resp,
    RespView,
    StatusCode,
};
use crate::server_resp::{Mail, MailView};
use crate::text::{decimal_of, owned, push_decimal, push_str};

verus! {

/// How long a command waits for the agent to be connected, in
/// milliseconds.
pub const CONNECT_WAIT_MS: u64 = 10_000;

/// How long the wait for the connection pauses between two looks, in
/// milliseconds.
pub const CONNECT_POLL_MS: u64 = 25;

/// How long a command waits for its reply, in milliseconds.
pub const REPLY_TIMEOUT_MS: u64 = 10_000;

/// What came of waiting for the reply to a command.
pub enum Awaited {
    Reply(ReturnChanResult),
    /// No reply came in time.
    TimedOut,
    /// The session that was to reply is gone.
    Disconnected,
}

/// The message for a command that came while the agent was not connected.
pub open spec fn not_connected_text() -> Seq<char> {
    "not_connected: Device Agent is still connecting to Fostrom"@
}

/// The response for a reply that does not answer the command.
pub open spec fn unexpected() -> RespView {
    failure(StatusCode::InternalServerError, "Unexpected Response"@)
}

/// A response with the status 200, the default headers and this body.
pub open spec fn ok_view(body: Seq<char>) -> RespView {
    RespView {
        status_code: StatusCode::Success,
        headers: default_headers(),
        body,
        is_event_stream: false,
    }
}

/// What the wait for a reply yields: the reply, or the response that
/// tells why there is none. A timeout, whether the wait or the session
/// found it, is told as such; an error is told with its message; a
/// session that is gone is an internal error.
pub open spec fn request_outcome(awaited: Awaited) -> Result<ReplyView, RespView> {
    match awaited {
        Awaited::TimedOut => Err(failure(StatusCode::Timeout, "Operation timed out"@)),
        Awaited::Disconnected => Err(
            failure(StatusCode::InternalServerError, "Failed to receive response"@),
        ),
        Awaited::Reply(ReturnChanResult::Timeout) => Err(
            failure(StatusCode::Timeout, "Operation timed out"@),
        ),
        Awaited::Reply(ReturnChanResult::Error(message)) => Err(
            failure(StatusCode::Forbidden, message@),
        ),
        Awaited::Reply(reply) => Ok(reply@),
    }
}

/// The answer to an operation on a mail.
pub open spec fn mail_op_view(result: Result<ReplyView, RespView>) -> RespView {
    match result {
        Err(resp) => resp,
        Ok(ReplyView::MailAckSuccessful(more)) => RespView {
            headers: set_header(default_headers(), "X-Mail-Available"@, bool_text(more)),
            ..ok_view("{\"mail_available\":"@ + bool_text(more) + ",\"ok\":true}"@)
        },
        Ok(_) => unexpected(),
    }
}

/// The headers of the answer that carries a mail.
pub open spec fn mail_headers(mail: MailView) -> Seq<(Seq<char>, Seq<char>)> {
    set_header(
        set_header(
            set_header(
                set_header(
                    set_header(
                        default_headers(),
                        "X-Mailbox-Size"@,
                        decimal_of(mail.mailbox_size as nat),
                    ),
                    "X-Mailbox-Empty"@,
                    "false"@,
                ),
                "X-Mail-ID"@,
                decimal_of(mail.pulse_id as nat),
            ),
            "X-Mail-Name"@,
            mail.name,
        ),
        "X-Mail-Has-Payload"@,
        bool_text(mail.payload is Some),
    )
}

/// The answer to a request for the next mail: the headers tell of the
/// mailbox and of the mail, and the body is the payload, unless only the
/// header was asked for or the mail has none.
pub open spec fn mailbox_next_view(result: Result<ReplyView, RespView>, header_only: bool) -> RespView {
    match result {
        Err(resp) => resp,
        Ok(ReplyView::Mail(None)) => RespView {
            headers: set_header(
                set_header(default_headers(), "X-Mailbox-Size"@, "0"@),
                "X-Mailbox-Empty"@,
                "true"@,
            ),
            ..ok_view(""@)
        },
        Ok(ReplyView::Mail(Some(mail))) => RespView {
            headers: mail_headers(mail),
            ..ok_view(
                if header_only || mail.payload is None {
                    ""@
                } else {
                    mail.payload->0
                },
            )
        },
        Ok(_) => unexpected(),
    }
}

/// The answer to a pulse.
pub open spec fn send_pulse_view(result: Result<ReplyView, RespView>) -> RespView {
    match result {
        Err(resp) => resp,
        Ok(ReplyView::Success) => ok_view("{\"ok\":true}"@),
        Ok(_) => unexpected(),
    }
}

/// The reply of a result, as the contracts speak of it.
pub open spec fn result_view(result: Result<ReturnChanResult, Resp>) -> Result<ReplyView, RespView> {
    match result {
        Ok(reply) => Ok(reply@),
        Err(resp) => Err(resp@),
    }
}

/// The response for a command that came while the agent was not
/// connected.
pub fn not_connected() -> (resp: Resp)
    ensures
        resp@ == failure(StatusCode::Forbidden, not_connected_text()),
{
    FailureResp::forbidden("not_connected: Device Agent is still connecting to Fostrom")
}

/// What the wait for a reply yields: see [`request_outcome`].
pub fn make_request(awaited: Awaited) -> (r: Result<ReturnChanResult, Resp>)
    ensures
        result_view(r) == request_outcome(awaited),
{
    match awaited {
        Awaited::TimedOut => Err(FailureResp::timeout()),
        Awaited::Disconnected => Err(
            FailureResp::internal_server_error("Failed to receive response"),
        ),
        Awaited::Reply(reply) => match reply {
            ReturnChanResult::Timeout => Err(FailureResp::timeout()),
            ReturnChanResult::Error(message) => Err(FailureResp::forbidden(message.as_str())),
            other => Ok(other),
        },
    }
}

/// The answer to an operation on a mail: see [`mail_op_view`].
pub fn mail_op(result: Result<ReturnChanResult, Resp>) -> (resp: Resp)
    ensures
        resp@ == mail_op_view(result_view(result)),
{
    match result {
        Err(resp) => resp,
        Ok(ReturnChanResult::MailAckSuccessful(more)) => {
            let mut body = owned("{\"mail_available\":");
            push_str(&mut body, bool_str(more));
            push_str(&mut body, ",\"ok\":true}");
            let mut r = Resp::ok(body.as_str());
            r.add_header("X-Mail-Available", bool_str(more));
            r
        },
        Ok(_) => FailureResp::internal_server_error("Unexpected Response"),
    }
}

/// The answer to a request for the next mail: see [`mailbox_next_view`].
pub fn mailbox_next(result: Result<ReturnChanResult, Resp>, header_only: bool) -> (resp: Resp)
    ensures
        resp@ == mailbox_next_view(result_view(result), header_only),
{
    match result {
        Err(resp) => resp,
        Ok(ReturnChanResult::Mail(None)) => {
            let mut r = Resp::ok("");
            r.add_header("X-Mailbox-Size", "0").add_header("X-Mailbox-Empty", "true");
            r
        },
        Ok(ReturnChanResult::Mail(Some(mail))) => {
            let mut size = String::new();
            push_decimal(&mut size, mail.mailbox_size as u64);
            assert(size@ =~= decimal_of(mail.mailbox_size as nat));
            let mut id = String::new();
            push_decimal(&mut id, mail.pulse_id);
            assert(id@ =~= decimal_of(mail.pulse_id as nat));
            let mut r = Resp::ok("");
            r.add_header("X-Mailbox-Size", size.as_str()).add_header(
                "X-Mailbox-Empty",
                "false",
            ).add_header("X-Mail-ID", id.as_str()).add_header(
                "X-Mail-Name",
                mail.name.as_str(),
            ).add_header("X-Mail-Has-Payload", bool_str(mail.payload.is_some()));
            match &mail.payload {
                Some(payload) => {
                    if !header_only {
                        r.set_body(payload.as_str());
                    }
                },
                None => {},
            }
            r
        },
        Ok(_) => FailureResp::internal_server_error("Unexpected Response"),
    }
}

/// The answer to a pulse: see [`send_pulse_view`].
pub fn send_pulse(result: Result<ReturnChanResult, Resp>) -> (resp: Resp)
    ensures
        resp@ == send_pulse_view(result_view(result)),
{
    match result {
        Err(resp) => resp,
        Ok(ReturnChanResult::Success) => Resp::ok("{\"ok\":true}"),
        Ok(_) => FailureResp::internal_server_error("Unexpected Response"),
    }
}

} // verus!
