//! Moonlight packets: the frames of the protocol as values, and the
//! constructors for each of them.

use vstd::prelude::*;
use vstd::string::*;
use vstd::utf8::*;
use crate::creds::{cred_error, CredErr, Creds};
use crate::protocol::{
    ConnectFailedError,
    MailAckType,
    PulseErrorReason,
    PulseType,
    SerializationFormat,
    UnauthorizedError,
};

verus! {

/// A frame of the protocol, as the contracts of this crate speak of it.
/// Byte strings are sequences; everything else is as in [`MoonlightPacket`].
#[allow(inconsistent_fields)]
pub enum Frame {
    CloseConnection { server: bool },
    Connect {
        keep_alive: bool,
        protocol_version: u8,
        serialization_format: SerializationFormat,
        fleet_id: Seq<u8>,
        device_id: Seq<u8>,
        device_secret: Seq<u8>,
    },
    Connected { mail_available: bool, keep_alive: bool },
    Unauthorized { reason: UnauthorizedError },
    ConnectFailed { reason: ConnectFailedError },
    Heartbeat(u8),
    HeartbeatAck { successful: bool },
    Pulse {
        pulse_type: PulseType,
        pulse_id: u64,
        name_len: u8,
        name: Seq<u8>,
        payload_len: u32,
        payload: Seq<u8>,
    },
    PulseResp { successful: bool, pulse_id: u64, error_reason: Option<PulseErrorReason> },
    NewMailEvent { mailbox_size: u16, pulse_id: u64 },
    MailboxNext { header_only: bool, txn_id: u64 },
    MailboxNextResp {
        header_only: bool,
        successful: bool,
        txn_id: u64,
        mailbox_size: u16,
        pulse_id: Option<u64>,
        name_len: Option<u8>,
        name: Option<Seq<u8>>,
        payload_len: Option<u32>,
        payload: Option<Seq<u8>>,
    },
    AckMail { pulse_id: u64, ack_type: MailAckType },
    AckMailResp { successful: bool, mailbox_size: u16, pulse_id: u64, ack_type: MailAckType },
}

impl Frame {
    /// Whether the fields of the frame agree with each other as the wire
    /// format asks: fixed-width fields have their width, each length field
    /// gives the length of the bytes it announces, and the optional fields
    /// are there exactly when the flags say so.
    pub open spec fn wf(self) -> bool {
        match self {
            Frame::Connect { fleet_id, device_id, device_secret, .. } => {
                &&& fleet_id.len() == 8
                &&& device_id.len() == 10
                &&& device_secret.len() == 36
            },
            Frame::Pulse { name_len, name, payload_len, payload, .. } => {
                &&& name.len() == name_len
                &&& payload.len() == payload_len
            },
            Frame::PulseResp { successful, error_reason, .. } => error_reason is Some
                <==> !successful,
            Frame::MailboxNextResp {
                header_only,
                successful,
                mailbox_size,
                pulse_id,
                name_len,
                name,
                payload_len,
                payload,
                ..
            } => {
                let has_mail = successful && mailbox_size > 0;
                let has_payload = has_mail && !header_only;
                &&& pulse_id is Some <==> has_mail
                &&& name_len is Some <==> has_mail
                &&& name is Some <==> has_mail
                &&& has_mail ==> name->0.len() == name_len->0
                &&& payload_len is Some <==> has_payload
                &&& payload is Some <==> has_payload
                &&& has_payload ==> payload->0.len() == payload_len->0
            },
            _ => true,
        }
    }

    /// The length that the frame announces for its payload; zero where it
    /// has none.
    pub open spec fn announced_payload_len(self) -> int {
        match self {
            Frame::Pulse { payload_len, .. } => payload_len as int,
            Frame::MailboxNextResp { payload_len: Some(n), .. } => n as int,
            _ => 0,
        }
    }
}

/// The bytes of an optional byte string.
pub open spec fn opt_bytes(o: Option<Vec<u8>>) -> Option<Seq<u8>> {
    match o {
        Some(v) => Some(v@),
        None => None,
    }
}

/// A packet of the protocol.
#[allow(inconsistent_fields)]
#[derive(Debug, Clone, PartialEq, Eq)]
pub enum MoonlightPacket {
    CloseConnection { server: bool },
    Connect {
        keep_alive: bool,
        protocol_version: u8,
        serialization_format: SerializationFormat,
        fleet_id: Vec<u8>,
        device_id: Vec<u8>,
        device_secret: Vec<u8>,
    },
    Connected { mail_available: bool, keep_alive: bool },
    Unauthorized { reason: UnauthorizedError },
    ConnectFailed { reason: ConnectFailedError },
    Heartbeat(u8),
    HeartbeatAck { successful: bool },
    Pulse {
        pulse_type: PulseType,
        pulse_id: u64,
        name_len: u8,
        name: Vec<u8>,
        payload_len: u32,
        payload: Vec<u8>,
    },
    PulseResp { successful: bool, pulse_id: u64, error_reason: Option<PulseErrorReason> },
    NewMailEvent { mailbox_size: u16, pulse_id: u64 },
    MailboxNext { header_only: bool, txn_id: u64 },
    MailboxNextResp {
        header_only: bool,
        successful: bool,
        txn_id: u64,
        mailbox_size: u16,
        pulse_id: Option<u64>,
        name_len: Option<u8>,
        name: Option<Vec<u8>>,
        payload_len: Option<u32>,
        payload: Option<Vec<u8>>,
    },
    AckMail { pulse_id: u64, ack_type: MailAckType },
    AckMailResp { successful: bool, mailbox_size: u16, pulse_id: u64, ack_type: MailAckType },
}

impl View for MoonlightPacket {
    type V = Frame;

    open spec fn view(&self) -> Frame {
        match *self {
            MoonlightPacket::CloseConnection { server } => Frame::CloseConnection { server },
            MoonlightPacket::Connect {
                keep_alive,
                protocol_version,
                serialization_format,
                fleet_id,
                device_id,
                device_secret,
            } => Frame::Connect {
                keep_alive,
                protocol_version,
                serialization_format,
                fleet_id: fleet_id@,
                device_id: device_id@,
                device_secret: device_secret@,
            },
            MoonlightPacket::Connected { mail_available, keep_alive } => Frame::Connected {
                mail_available,
                keep_alive,
            },
            MoonlightPacket::Unauthorized { reason } => Frame::Unauthorized { reason },
            MoonlightPacket::ConnectFailed { reason } => Frame::ConnectFailed { reason },
            MoonlightPacket::Heartbeat(b) => Frame::Heartbeat(b),
            MoonlightPacket::HeartbeatAck { successful } => Frame::HeartbeatAck { successful },
            MoonlightPacket::Pulse {
                pulse_type,
                pulse_id,
                name_len,
                name,
                payload_len,
                payload,
            } => Frame::Pulse {
                pulse_type,
                pulse_id,
                name_len,
                name: name@,
                payload_len,
                payload: payload@,
            },
            MoonlightPacket::PulseResp { successful, pulse_id, error_reason } => Frame::PulseResp {
                successful,
                pulse_id,
                error_reason,
            },
            MoonlightPacket::NewMailEvent { mailbox_size, pulse_id } => Frame::NewMailEvent {
                mailbox_size,
                pulse_id,
            },
            MoonlightPacket::MailboxNext { header_only, txn_id } => Frame::MailboxNext {
                header_only,
                txn_id,
            },
            MoonlightPacket::MailboxNextResp {
                header_only,
                successful,
                txn_id,
                mailbox_size,
                pulse_id,
                name_len,
                name,
                payload_len,
                payload,
            } => Frame::MailboxNextResp {
                header_only,
                successful,
                txn_id,
                mailbox_size,
                pulse_id,
                name_len,
                name: opt_bytes(name),
                payload_len,
                payload: opt_bytes(payload),
            },
            MoonlightPacket::AckMail { pulse_id, ack_type } => Frame::AckMail {
                pulse_id,
                ack_type,
            },
            MoonlightPacket::AckMailResp {
                successful,
                mailbox_size,
                pulse_id,
                ack_type,
            } => Frame::AckMailResp { successful, mailbox_size, pulse_id, ack_type },
        }
    }
}

/// The bytes of a string, in a vector of their own.
fn bytes_of(s: &str) -> (v: Vec<u8>)
    ensures
        v@ == encode_utf8(s@),
{
    s.as_bytes_vec()
}

impl MoonlightPacket {
    /// The Connect packet for a set of credentials, together with the
    /// credentials, or the error that the credentials get. The packet asks
    /// for a kept-alive session with protocol version 1 and JSON payloads.
    pub fn connect(fleet_id: String, device_id: String, device_secret: String, prod: bool) -> (r:
        Result<(MoonlightPacket, Creds), CredErr>)
        ensures
            match r {
                Ok((packet, creds)) => {
                    &&& cred_error(fleet_id@, device_id@, device_secret@) is None
                    &&& packet@ == (Frame::Connect {
                        keep_alive: true,
                        protocol_version: 1,
                        serialization_format: SerializationFormat::JSON,
                        fleet_id: encode_utf8(fleet_id@),
                        device_id: encode_utf8(device_id@),
                        device_secret: encode_utf8(device_secret@),
                    })
                    &&& packet@.wf()
                    &&& creds.fleet_id@ == fleet_id@
                    &&& creds.device_id@ == device_id@
                    &&& creds.device_secret@ == device_secret@
                    &&& creds.prod == prod
                },
                Err(e) => cred_error(fleet_id@, device_id@, device_secret@) == Some(e),
            },
    {
        let creds = match Creds::new(
            fleet_id.as_str(),
            device_id.as_str(),
            device_secret.as_str(),
            prod,
        ) {
            Ok(creds) => creds,
            Err(e) => {
                return Err(e);
            },
        };
        let packet = MoonlightPacket::Connect {
            keep_alive: true,
            protocol_version: 1,
            serialization_format: SerializationFormat::JSON,
            fleet_id: bytes_of(fleet_id.as_str()),
            device_id: bytes_of(device_id.as_str()),
            device_secret: bytes_of(device_secret.as_str()),
        };
        proof {
            crate::creds::lemma_valid_fields_are_ascii(fleet_id@, device_id@, device_secret@);
        }
        Ok((packet, creds))
    }

    pub fn server_close_connection() -> (p: MoonlightPacket)
        ensures
            p@ == (Frame::CloseConnection { server: true }),
    {
        MoonlightPacket::CloseConnection { server: true }
    }

    pub fn client_close_connection() -> (p: MoonlightPacket)
        ensures
            p@ == (Frame::CloseConnection { server: false }),
    {
        MoonlightPacket::CloseConnection { server: false }
    }

    pub fn connected(mail_available: bool, keep_alive: bool) -> (p: MoonlightPacket)
        ensures
            p@ == (Frame::Connected { mail_available, keep_alive }),
    {
        MoonlightPacket::Connected { mail_available, keep_alive }
    }

    pub fn unauthorized(reason: UnauthorizedError) -> (p: MoonlightPacket)
        ensures
            p@ == (Frame::Unauthorized { reason }),
    {
        MoonlightPacket::Unauthorized { reason }
    }

    pub fn connect_failed(reason: ConnectFailedError) -> (p: MoonlightPacket)
        ensures
            p@ == (Frame::ConnectFailed { reason }),
    {
        MoonlightPacket::ConnectFailed { reason }
    }

    pub fn heartbeat() -> (p: MoonlightPacket)
        ensures
            p@ == Frame::Heartbeat(0),
    {
        MoonlightPacket::Heartbeat(0)
    }

    pub fn heartbeat_ack(successful: bool) -> (p: MoonlightPacket)
        ensures
            p@ == (Frame::HeartbeatAck { successful }),
    {
        MoonlightPacket::HeartbeatAck { successful }
    }

    /// A pulse with the given name and payload. The name takes at most 255
    /// bytes; the length fields are the lengths of the two byte strings,
    /// the payload's reduced to 32 bits.
    pub fn pulse(pulse_type: PulseType, pulse_id: u64, name: String, payload: String) -> (p:
        MoonlightPacket)
        requires
            encode_utf8(name@).len() <= 255,
        ensures
            p@ == (Frame::Pulse {
                pulse_type,
                pulse_id,
                name_len: encode_utf8(name@).len() as u8,
                name: encode_utf8(name@),
                payload_len: (encode_utf8(payload@).len() % 0x1_0000_0000) as u32,
                payload: encode_utf8(payload@),
            }),
            encode_utf8(payload@).len() <= u32::MAX ==> p@.wf(),
    {
        let name_bytes = bytes_of(name.as_str());
        let payload_bytes = bytes_of(payload.as_str());
        MoonlightPacket::Pulse {
            pulse_type,
            pulse_id,
            name_len: name_bytes.len() as u8,
            payload_len: (payload_bytes.len() as u64 % 0x1_0000_0000) as u32,
            name: name_bytes,
            payload: payload_bytes,
        }
    }

    pub fn pulse_resp_success(pulse_id: u64) -> (p: MoonlightPacket)
        ensures
            p@ == (Frame::PulseResp { successful: true, pulse_id, error_reason: None }),
    {
        MoonlightPacket::PulseResp { successful: true, pulse_id, error_reason: None }
    }

    pub fn pulse_resp_error(pulse_id: u64, error_reason: PulseErrorReason) -> (p: MoonlightPacket)
        ensures
            p@ == (Frame::PulseResp {
                successful: false,
                pulse_id,
                error_reason: Some(error_reason),
            }),
    {
        MoonlightPacket::PulseResp { successful: false, pulse_id, error_reason: Some(error_reason) }
    }

    pub fn new_mail_event(mailbox_size: u16, pulse_id: u64) -> (p: MoonlightPacket)
        ensures
            p@ == (Frame::NewMailEvent { mailbox_size, pulse_id }),
    {
        MoonlightPacket::NewMailEvent { mailbox_size, pulse_id }
    }

    pub fn mailbox_next(header_only: bool, txn_id: u64) -> (p: MoonlightPacket)
        ensures
            p@ == (Frame::MailboxNext { header_only, txn_id }),
    {
        MoonlightPacket::MailboxNext { header_only, txn_id }
    }

    pub fn mailbox_next_resp_empty(txn_id: u64) -> (p: MoonlightPacket)
        ensures
            p@ == (Frame::MailboxNextResp {
                header_only: false,
                successful: true,
                txn_id,
                mailbox_size: 0,
                pulse_id: None,
                name_len: None,
                name: None,
                payload_len: None,
                payload: None,
            }),
    {
        MoonlightPacket::MailboxNextResp {
            header_only: false,
            successful: true,
            txn_id,
            mailbox_size: 0,
            pulse_id: None,
            name_len: None,
            name: None,
            payload_len: None,
            payload: None,
        }
    }

    pub fn mailbox_next_resp_failed(txn_id: u64) -> (p: MoonlightPacket)
        ensures
            p@ == (Frame::MailboxNextResp {
                header_only: false,
                successful: false,
                txn_id,
                mailbox_size: 0,
                pulse_id: None,
                name_len: None,
                name: None,
                payload_len: None,
                payload: None,
            }),
    {
        MoonlightPacket::MailboxNextResp {
            header_only: false,
            successful: false,
            txn_id,
            mailbox_size: 0,
            pulse_id: None,
            name_len: None,
            name: None,
            payload_len: None,
            payload: None,
        }
    }

    /// The answer that carries the header of the next mail and no payload.
    /// The name's length field is the name's length reduced to eight bits.
    pub fn mailbox_next_resp_header_only(
        txn_id: u64,
        mailbox_size: u16,
        pulse_id: u64,
        name: String,
    ) -> (p: MoonlightPacket)
        ensures
            p@ == (Frame::MailboxNextResp {
                header_only: true,
                successful: true,
                txn_id,
                mailbox_size,
                pulse_id: Some(pulse_id),
                name_len: Some((encode_utf8(name@).len() % 256) as u8),
                name: Some(encode_utf8(name@)),
                payload_len: None,
                payload: None,
            }),
            mailbox_size > 0 && encode_utf8(name@).len() <= 255 ==> p@.wf(),
    {
        let name_bytes = bytes_of(name.as_str());
        MoonlightPacket::MailboxNextResp {
            header_only: true,
            successful: true,
            txn_id,
            mailbox_size,
            pulse_id: Some(pulse_id),
            name_len: Some((name_bytes.len() % 256) as u8),
            name: Some(name_bytes),
            payload_len: None,
            payload: None,
        }
    }

    /// The answer that carries the next mail with its payload. The name
    /// takes at most 255 bytes.
    pub fn mailbox_next_resp_full(
        txn_id: u64,
        mailbox_size: u16,
        pulse_id: u64,
        name: String,
        payload: String,
    ) -> (p: MoonlightPacket)
        requires
            encode_utf8(name@).len() <= 255,
        ensures
            p@ == (Frame::MailboxNextResp {
                header_only: false,
                successful: true,
                txn_id,
                mailbox_size,
                pulse_id: Some(pulse_id),
                name_len: Some(encode_utf8(name@).len() as u8),
                name: Some(encode_utf8(name@)),
                payload_len: Some((encode_utf8(payload@).len() % 0x1_0000_0000) as u32),
                payload: Some(encode_utf8(payload@)),
            }),
            mailbox_size > 0 && encode_utf8(payload@).len() <= u32::MAX ==> p@.wf(),
    {
        let name_bytes = bytes_of(name.as_str());
        let payload_bytes = bytes_of(payload.as_str());
        MoonlightPacket::MailboxNextResp {
            header_only: false,
            successful: true,
            txn_id,
            mailbox_size,
            pulse_id: Some(pulse_id),
            name_len: Some(name_bytes.len() as u8),
            name: Some(name_bytes),
            payload_len: Some((payload_bytes.len() as u64 % 0x1_0000_0000) as u32),
            payload: Some(payload_bytes),
        }
    }

    pub fn ack_mail(pulse_id: u64, ack_type: MailAckType) -> (p: MoonlightPacket)
        ensures
            p@ == (Frame::AckMail { pulse_id, ack_type }),
    {
        MoonlightPacket::AckMail { pulse_id, ack_type }
    }

    pub fn ack_mail_resp(mailbox_size: u16, pulse_id: u64, ack_type: MailAckType) -> (p:
        MoonlightPacket)
        ensures
            p@ == (Frame::AckMailResp { successful: true, mailbox_size, pulse_id, ack_type }),
    {
        MoonlightPacket::AckMailResp { successful: true, mailbox_size, pulse_id, ack_type }
    }

    pub fn ack_mail_resp_failed(pulse_id: u64, ack_type: MailAckType) -> (p: MoonlightPacket)
        ensures
            p@ == (Frame::AckMailResp { successful: false, mailbox_size: 0, pulse_id, ack_type }),
    {
        MoonlightPacket::AckMailResp { successful: false, mailbox_size: 0, pulse_id, ack_type }
    }
}

} // verus!
