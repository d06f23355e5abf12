//! What a packet from the server means to the agent.

use vstd::prelude::*;
use vstd::utf8::*;
use crate::json::{json_document, opt_text, parse_document};
use crate::packet::{Frame, MoonlightPacket};
use crate::protocol::{DisconnectedReason, MailAckType, PulseErrorReason};
use crate::text::string_from_utf8;

verus! {

/// A mail from the server. The payload is a JSON document in compact
/// form, where the mail has one that could be read.
#[derive(Debug, Clone, PartialEq, Eq)]
pub struct Mail {
    pub pulse_id: u64,
    pub name: String,
    pub payload: Option<String>,
    pub mailbox_size: u16,
}

/// A mail, as the contracts speak of it.
pub struct MailView {
    pub pulse_id: u64,
    pub name: Seq<char>,
    pub payload: Option<Seq<char>>,
    pub mailbox_size: u16,
}

impl View for Mail {
    type V = MailView;

    open spec fn view(&self) -> MailView {
        MailView {
            pulse_id: self.pulse_id,
            name: self.name@,
            payload: opt_text(self.payload),
            mailbox_size: self.mailbox_size,
        }
    }
}

/// The mail of an optional mail.
pub open spec fn opt_mail(o: Option<Mail>) -> Option<MailView> {
    match o {
        Some(mail) => Some(mail@),
        None => None,
    }
}

/// What the agent has to handle when a packet arrives from the server.
#[derive(Debug, PartialEq, Eq)]
pub enum ServerResp {
    /// A packet that the server should not have sent.
    ForceCloseSocket,
    /// The session is open; the flag says whether mail is waiting.
    Connected(bool),
    Disconnected(DisconnectedReason),
    HeartbeatAck,
    NewMail,
    /// The pulse with this id was taken, or refused for this reason.
    PulseResp(Result<u64, (u64, PulseErrorReason)>),
    /// The mail with this id was acknowledged, and whether more mail
    /// waits; or the acknowledgement of this type was refused.
    AckMailResp(Result<(u64, bool), (u64, MailAckType)>),
    /// The answer to the request with this id: the next mail, or none
    /// where the mailbox is empty; or the request failed.
    MailboxNext(Result<(u64, Option<Mail>), u64>),
}

/// A server response, as the contracts speak of it.
pub enum ServerRespView {
    ForceCloseSocket,
    Connected(bool),
    Disconnected(DisconnectedReason),
    HeartbeatAck,
    NewMail,
    PulseResp(Result<u64, (u64, PulseErrorReason)>),
    AckMailResp(Result<(u64, bool), (u64, MailAckType)>),
    MailboxNext(Result<(u64, Option<MailView>), u64>),
}

impl View for ServerResp {
    type V = ServerRespView;

    open spec fn view(&self) -> ServerRespView {
        match *self {
            ServerResp::ForceCloseSocket => ServerRespView::ForceCloseSocket,
            ServerResp::Connected(mail_available) => ServerRespView::Connected(mail_available),
            ServerResp::Disconnected(reason) => ServerRespView::Disconnected(reason),
            ServerResp::HeartbeatAck => ServerRespView::HeartbeatAck,
            ServerResp::NewMail => ServerRespView::NewMail,
            ServerResp::PulseResp(r) => ServerRespView::PulseResp(r),
            ServerResp::AckMailResp(r) => ServerRespView::AckMailResp(r),
            ServerResp::MailboxNext(r) => ServerRespView::MailboxNext(
                match r {
                    Ok((txn_id, mail)) => Ok((txn_id, opt_mail(mail))),
                    Err(txn_id) => Err(txn_id),
                },
            ),
        }
    }
}

/// The payload of a mail: the JSON document that the payload bytes hold.
/// There is none where the bytes are missing, are not UTF-8, are not JSON,
/// or are the document `null`.
pub open spec fn mail_payload(payload: Option<Seq<u8>>) -> Option<Seq<char>> {
    match payload {
        Some(bytes) => if valid_utf8(bytes) {
            json_document(decode_utf8(bytes))
        } else {
            None
        },
        None => None,
    }
}

/// What a frame from the server means.
///
/// A polite close, a refusal and a failed connect end the session with
/// their reason. Answers to requests are passed on with the id of the
/// request: a failed pulse with its reason, or with `Unknown` where the
/// frame gives none; an acknowledgement with whether the mailbox still
/// holds mail; a mail with its name and, unless only the header was asked
/// for, its payload. A mail whose id or name is missing, or whose name is
/// not UTF-8, counts as a failed request. Every frame that only the
/// device may send ends the session.
pub open spec fn handle_frame(f: Frame) -> ServerRespView {
    match f {
        Frame::CloseConnection { server: true } => ServerRespView::Disconnected(
            DisconnectedReason::NormalDisconnect,
        ),
        Frame::ConnectFailed { reason } => ServerRespView::Disconnected(
            DisconnectedReason::ConnectFailed(reason),
        ),
        Frame::Unauthorized { reason } => ServerRespView::Disconnected(
            DisconnectedReason::Unauthorized(reason),
        ),
        Frame::Connected { mail_available, .. } => ServerRespView::Connected(mail_available),
        Frame::HeartbeatAck { .. } => ServerRespView::HeartbeatAck,
        Frame::PulseResp { successful, pulse_id, error_reason } => ServerRespView::PulseResp(
            if successful {
                Ok(pulse_id)
            } else {
                match error_reason {
                    Some(reason) => Err((pulse_id, reason)),
                    None => Err((pulse_id, PulseErrorReason::Unknown)),
                }
            },
        ),
        Frame::AckMailResp {
            successful,
            mailbox_size,
            pulse_id,
            ack_type,
        } => ServerRespView::AckMailResp(
            if successful {
                Ok((pulse_id, mailbox_size > 0))
            } else {
                Err((pulse_id, ack_type))
            },
        ),
        Frame::MailboxNextResp {
            header_only,
            successful,
            txn_id,
            mailbox_size,
            pulse_id,
            name,
            payload,
            ..
        } => ServerRespView::MailboxNext(
            if successful && mailbox_size != 0 {
                match (pulse_id, name) {
                    (Some(id), Some(name_bytes)) => if valid_utf8(name_bytes) {
                        Ok(
                            (
                                txn_id,
                                Some(
                                    MailView {
                                        pulse_id: id,
                                        name: decode_utf8(name_bytes),
                                        payload: if header_only {
                                            None
                                        } else {
                                            mail_payload(payload)
                                        },
                                        mailbox_size,
                                    },
                                ),
                            ),
                        )
                    } else {
                        Err(txn_id)
                    },
                    _ => Err(txn_id),
                }
            } else if successful {
                Ok((txn_id, None))
            } else {
                Err(txn_id)
            },
        ),
        Frame::NewMailEvent { .. } => ServerRespView::NewMail,
        _ => ServerRespView::ForceCloseSocket,
    }
}

/// Reads payload bytes as a JSON document.
fn read_payload(payload: Option<Vec<u8>>) -> (r: Option<String>)
    ensures
        opt_text(r) == mail_payload(crate::packet::opt_bytes(payload)),
{
    match payload {
        Some(bytes) => {
            match string_from_utf8(bytes) {
                Some(text) => {
                    proof {
                        encode_utf8_decode_utf8(text@);
                    }
                    parse_document(text.as_str())
                },
                None => None,
            }
        },
        None => None,
    }
}

impl ServerResp {
    /// What a packet from the server means: see [`handle_frame`].
    pub fn handle_packet(packet: MoonlightPacket) -> (r: ServerResp)
        ensures
            r@ == handle_frame(packet@),
    {
        match packet {
            MoonlightPacket::CloseConnection { server } => {
                if server {
                    ServerResp::Disconnected(DisconnectedReason::NormalDisconnect)
                } else {
                    ServerResp::ForceCloseSocket
                }
            },
            MoonlightPacket::ConnectFailed { reason } => ServerResp::Disconnected(
                DisconnectedReason::ConnectFailed(reason),
            ),
            MoonlightPacket::Unauthorized { reason } => ServerResp::Disconnected(
                DisconnectedReason::Unauthorized(reason),
            ),
            MoonlightPacket::Connected { mail_available, keep_alive: _ } => ServerResp::Connected(
                mail_available,
            ),
            MoonlightPacket::HeartbeatAck { successful: _ } => ServerResp::HeartbeatAck,
            MoonlightPacket::PulseResp { successful, pulse_id, error_reason } => {
                let r = if successful {
                    Ok(pulse_id)
                } else {
                    match error_reason {
                        Some(reason) => Err((pulse_id, reason)),
                        None => Err((pulse_id, PulseErrorReason::Unknown)),
                    }
                };
                ServerResp::PulseResp(r)
            },
            MoonlightPacket::AckMailResp { successful, mailbox_size, pulse_id, ack_type } => {
                ServerResp::AckMailResp(
                    if successful {
                        Ok((pulse_id, mailbox_size > 0))
                    } else {
                        Err((pulse_id, ack_type))
                    },
                )
            },
            MoonlightPacket::MailboxNextResp {
                header_only,
                successful,
                txn_id,
                mailbox_size,
                pulse_id,
                name_len: _,
                name,
                payload_len: _,
                payload,
            } => {
                if successful && mailbox_size != 0 {
                    let pulse_id = match pulse_id {
                        Some(id) => id,
                        None => {
                            return ServerResp::MailboxNext(Err(txn_id));
                        },
                    };
                    let name_bytes = match name {
                        Some(bytes) => bytes,
                        None => {
                            return ServerResp::MailboxNext(Err(txn_id));
                        },
                    };
                    let name = match string_from_utf8(name_bytes) {
                        Some(text) => text,
                        None => {
                            return ServerResp::MailboxNext(Err(txn_id));
                        },
                    };
                    proof {
                        encode_utf8_decode_utf8(name@);
                    }
                    let payload = if header_only {
                        None
                    } else {
                        read_payload(payload)
                    };
                    let mail = Mail { pulse_id, name, payload, mailbox_size };
                    ServerResp::MailboxNext(Ok((txn_id, Some(mail))))
                } else if successful {
                    ServerResp::MailboxNext(Ok((txn_id, None)))
                } else {
                    ServerResp::MailboxNext(Err(txn_id))
                }
            },
            MoonlightPacket::NewMailEvent { mailbox_size: _, pulse_id: _ } => ServerResp::NewMail,
            _ => ServerResp::ForceCloseSocket,
        }
    }
}

} // verus!
