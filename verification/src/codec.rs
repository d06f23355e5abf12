//! The codec: how a frame is laid out in bytes, how bytes are read back
//! into frames, and the buffer that turns a stream of bytes into a stream
//! of frames.
//!
//! The first byte of a frame is its tag and the second its flags; integers
//! are big-endian; a name is preceded by its length in one byte and a
//! payload by its length in four.

use vstd::prelude::*;
use vstd::slice::{slice_subrange, slice_to_vec};
use crate::packet::{opt_bytes, Frame, MoonlightPacket};
use crate::protocol::{
    ConnectFailedError,
    MailAckType,
    PulseErrorReason,
    PulseType,
    SerializationFormat,
    UnauthorizedError,
};
use crate::text::owned;
use crate::wire::{get_u16, get_u32, get_u64, put_u16, put_u32, put_u64, u16_at, u16_bytes, u32_at, u32_bytes, u64_at, u64_bytes};

verus! {

/// The longest payload that the decoder accepts, in bytes. A frame that
/// announces more is malformed.
pub const MAX_PAYLOAD_LEN: u32 = 4_194_304;

/// What went wrong in the codec.
#[derive(Debug, Clone, Copy, PartialEq, Eq, Structural)]
pub enum CodecError {
    /// The packet handed to the encoder is not well-formed.
    InvalidPacket,
    /// The bytes handed to the decoder are not the start of any frame.
    DecodeFailed,
}

impl CodecError {
    /// The message shown for the error.
    pub open spec fn text(self) -> Seq<char> {
        match self {
            CodecError::InvalidPacket => "Invalid Packet: the fields of the packet do not agree with each other"@,
            CodecError::DecodeFailed => "Failed to decode packet: the bytes are not the start of a Moonlight frame"@,
        }
    }

    pub fn to_string(&self) -> (s: String)
        ensures
            s@ == self.text(),
    {
        match self {
            CodecError::InvalidPacket => owned("Invalid Packet: the fields of the packet do not agree with each other"),
            CodecError::DecodeFailed => owned("Failed to decode packet: the bytes are not the start of a Moonlight frame"),
        }
    }
}

/// The lowest bit of a flags byte for a boolean.
pub open spec fn flag(b: bool) -> u8 {
    if b {
        1
    } else {
        0
    }
}

/// Whether the lowest bit of a flags byte is set.
pub open spec fn bit0(flags: u8) -> bool {
    flags % 2 == 1
}

/// Whether the second-lowest bit of a flags byte is set.
pub open spec fn bit1(flags: u8) -> bool {
    (flags / 2) % 2 == 1
}

/// The bytes of an optional byte string; none where it is absent.
pub open spec fn opt_seq(o: Option<Seq<u8>>) -> Seq<u8> {
    match o {
        Some(s) => s,
        None => Seq::empty(),
    }
}

/// Whether a byte is the tag of a frame of the protocol.
pub open spec fn known_tag(tag: u8) -> bool {
    tag == 1 || tag == 2 || tag == 3 || tag == 4 || tag == 5 || tag == 8 || tag == 9 || tag == 10
        || tag == 11 || tag == 20 || tag == 21 || tag == 22 || tag == 25 || tag == 26
}

/// The bytes of a frame. Reserved bits and bytes are zero.
pub open spec fn encode_spec(f: Frame) -> Seq<u8> {
    match f {
        Frame::CloseConnection { server } => seq![1u8, flag(server)],
        Frame::Connect {
            keep_alive,
            protocol_version,
            serialization_format,
            fleet_id,
            device_id,
            device_secret,
        } => seq![2u8, flag(keep_alive), protocol_version, serialization_format.spec_code()]
            + fleet_id + device_id + device_secret,
        Frame::Connected { mail_available, keep_alive } => seq![
            3u8,
            (flag(keep_alive) + 2 * flag(mail_available)) as u8,
        ],
        Frame::Unauthorized { reason } => seq![4u8, 0u8, reason.spec_code()],
        Frame::ConnectFailed { reason } => seq![5u8, 0u8, reason.spec_code()],
        Frame::Heartbeat(b) => seq![8u8, b],
        Frame::HeartbeatAck { successful } => seq![9u8, flag(successful)],
        Frame::Pulse { pulse_type, pulse_id, name_len, name, payload_len, payload } => seq![
            10u8,
            0u8,
            pulse_type.spec_code(),
        ] + u64_bytes(pulse_id) + seq![name_len] + name + u32_bytes(payload_len) + payload,
        Frame::PulseResp { successful, pulse_id, error_reason } => seq![11u8, flag(successful)]
            + u64_bytes(pulse_id) + (match error_reason {
            Some(reason) => seq![reason.spec_code()],
            None => Seq::empty(),
        }),
        Frame::NewMailEvent { mailbox_size, pulse_id } => seq![20u8, 0u8] + u16_bytes(
            mailbox_size,
        ) + u64_bytes(pulse_id),
        Frame::MailboxNext { header_only, txn_id } => seq![21u8, flag(header_only)] + u64_bytes(
            txn_id,
        ),
        Frame::MailboxNextResp {
            header_only,
            successful,
            txn_id,
            mailbox_size,
            pulse_id,
            name_len,
            name,
            payload_len,
            payload,
        } => seq![22u8, (flag(successful) + 2 * flag(header_only)) as u8] + u64_bytes(txn_id)
            + u16_bytes(mailbox_size) + (match pulse_id {
            Some(id) => u64_bytes(id),
            None => Seq::empty(),
        }) + (match name_len {
            Some(n) => seq![n],
            None => Seq::empty(),
        }) + opt_seq(name) + (match payload_len {
            Some(n) => u32_bytes(n),
            None => Seq::empty(),
        }) + opt_seq(payload),
        Frame::AckMail { pulse_id, ack_type } => seq![25u8, 0u8] + u64_bytes(pulse_id) + seq![
            ack_type.spec_code(),
        ],
        Frame::AckMailResp { successful, mailbox_size, pulse_id, ack_type } => seq![
            26u8,
            flag(successful),
        ] + u16_bytes(mailbox_size) + u64_bytes(pulse_id) + seq![ack_type.spec_code()],
    }
}

/// What the start of a byte string is: a whole frame, with the number of
/// bytes it takes; the beginning of a frame whose end has not arrived; or
/// the beginning of nothing that the protocol knows.
pub enum Decoded {
    Complete { frame: Frame, consumed: int },
    Incomplete,
    Malformed,
}

/// Reads a Connect frame, whose tag and flags are there.
pub open spec fn decode_connect(s: Seq<u8>) -> Decoded {
    if s.len() < 4 {
        Decoded::Incomplete
    } else {
        match SerializationFormat::spec_from_code(s[3]) {
            None => Decoded::Malformed,
            Some(serialization_format) => if s.len() < 58 {
                Decoded::Incomplete
            } else {
                Decoded::Complete {
                    frame: Frame::Connect {
                        keep_alive: bit0(s[1]),
                        protocol_version: s[2],
                        serialization_format,
                        fleet_id: s.subrange(4, 12),
                        device_id: s.subrange(12, 22),
                        device_secret: s.subrange(22, 58),
                    },
                    consumed: 58,
                }
            },
        }
    }
}

/// Reads an Unauthorized frame, whose tag and flags are there.
pub open spec fn decode_unauthorized(s: Seq<u8>) -> Decoded {
    if s.len() < 3 {
        Decoded::Incomplete
    } else {
        match UnauthorizedError::spec_from_code(s[2]) {
            None => Decoded::Malformed,
            Some(reason) => Decoded::Complete { frame: Frame::Unauthorized { reason }, consumed: 3 },
        }
    }
}

/// Reads a ConnectFailed frame, whose tag and flags are there.
pub open spec fn decode_connect_failed(s: Seq<u8>) -> Decoded {
    if s.len() < 3 {
        Decoded::Incomplete
    } else {
        match ConnectFailedError::spec_from_code(s[2]) {
            None => Decoded::Malformed,
            Some(reason) => Decoded::Complete {
                frame: Frame::ConnectFailed { reason },
                consumed: 3,
            },
        }
    }
}

/// Reads a Pulse frame, whose tag and flags are there.
pub open spec fn decode_pulse(s: Seq<u8>) -> Decoded {
    if s.len() < 3 {
        Decoded::Incomplete
    } else {
        match PulseType::spec_from_code(s[2]) {
            None => Decoded::Malformed,
            Some(pulse_type) => if s.len() < 12 {
                Decoded::Incomplete
            } else {
                let name_len = s[11];
                if s.len() < 16 + name_len {
                    Decoded::Incomplete
                } else {
                    let payload_len = u32_at(s, 12 + name_len);
                    if payload_len > MAX_PAYLOAD_LEN {
                        Decoded::Malformed
                    } else if s.len() < 16 + name_len + payload_len {
                        Decoded::Incomplete
                    } else {
                        Decoded::Complete {
                            frame: Frame::Pulse {
                                pulse_type,
                                pulse_id: u64_at(s, 3),
                                name_len,
                                name: s.subrange(12, 12 + name_len),
                                payload_len,
                                payload: s.subrange(
                                    16 + name_len,
                                    16 + name_len + payload_len,
                                ),
                            },
                            consumed: 16 + name_len + payload_len,
                        }
                    }
                }
            },
        }
    }
}

/// Reads a PulseResp frame, whose tag and flags are there.
pub open spec fn decode_pulse_resp(s: Seq<u8>) -> Decoded {
    if s.len() < 10 {
        Decoded::Incomplete
    } else if bit0(s[1]) {
        Decoded::Complete {
            frame: Frame::PulseResp {
                successful: true,
                pulse_id: u64_at(s, 2),
                error_reason: None,
            },
            consumed: 10,
        }
    } else if s.len() < 11 {
        Decoded::Incomplete
    } else {
        match PulseErrorReason::spec_from_code(s[10]) {
            None => Decoded::Malformed,
            Some(reason) => Decoded::Complete {
                frame: Frame::PulseResp {
                    successful: false,
                    pulse_id: u64_at(s, 2),
                    error_reason: Some(reason),
                },
                consumed: 11,
            },
        }
    }
}

/// Reads a MailboxNextResp frame, whose tag and flags are there.
pub open spec fn decode_mailbox_next_resp(s: Seq<u8>) -> Decoded {
    if s.len() < 12 {
        Decoded::Incomplete
    } else {
        let header_only = bit1(s[1]);
        let successful = bit0(s[1]);
        let txn_id = u64_at(s, 2);
        let mailbox_size = u16_at(s, 10);
        if !(successful && mailbox_size > 0) {
            Decoded::Complete {
                frame: Frame::MailboxNextResp {
                    header_only,
                    successful,
                    txn_id,
                    mailbox_size,
                    pulse_id: None,
                    name_len: None,
                    name: None,
                    payload_len: None,
                    payload: None,
                },
                consumed: 12,
            }
        } else if s.len() < 21 {
            Decoded::Incomplete
        } else {
            let pulse_id = u64_at(s, 12);
            let name_len = s[20];
            if s.len() < 21 + name_len {
                Decoded::Incomplete
            } else if header_only {
                Decoded::Complete {
                    frame: Frame::MailboxNextResp {
                        header_only,
                        successful,
                        txn_id,
                        mailbox_size,
                        pulse_id: Some(pulse_id),
                        name_len: Some(name_len),
                        name: Some(s.subrange(21, 21 + name_len)),
                        payload_len: None,
                        payload: None,
                    },
                    consumed: 21 + name_len,
                }
            } else if s.len() < 25 + name_len {
                Decoded::Incomplete
            } else {
                let payload_len = u32_at(s, 21 + name_len);
                if payload_len > MAX_PAYLOAD_LEN {
                    Decoded::Malformed
                } else if s.len() < 25 + name_len + payload_len {
                    Decoded::Incomplete
                } else {
                    Decoded::Complete {
                        frame: Frame::MailboxNextResp {
                            header_only,
                            successful,
                            txn_id,
                            mailbox_size,
                            pulse_id: Some(pulse_id),
                            name_len: Some(name_len),
                            name: Some(s.subrange(21, 21 + name_len)),
                            payload_len: Some(payload_len),
                            payload: Some(
                                s.subrange(25 + name_len, 25 + name_len + payload_len),
                            ),
                        },
                        consumed: 25 + name_len + payload_len,
                    }
                }
            }
        }
    }
}

/// Reads an AckMail frame, whose tag and flags are there.
pub open spec fn decode_ack_mail(s: Seq<u8>) -> Decoded {
    if s.len() < 11 {
        Decoded::Incomplete
    } else {
        match MailAckType::spec_from_code(s[10]) {
            None => Decoded::Malformed,
            Some(ack_type) => Decoded::Complete {
                frame: Frame::AckMail { pulse_id: u64_at(s, 2), ack_type },
                consumed: 11,
            },
        }
    }
}

/// Reads an AckMailResp frame, whose tag and flags are there.
pub open spec fn decode_ack_mail_resp(s: Seq<u8>) -> Decoded {
    if s.len() < 13 {
        Decoded::Incomplete
    } else {
        match MailAckType::spec_from_code(s[12]) {
            None => Decoded::Malformed,
            Some(ack_type) => Decoded::Complete {
                frame: Frame::AckMailResp {
                    successful: bit0(s[1]),
                    mailbox_size: u16_at(s, 2),
                    pulse_id: u64_at(s, 4),
                    ack_type,
                },
                consumed: 13,
            },
        }
    }
}

/// Reads the frame at the start of a byte string. The fields are read in
/// the order of the wire: the first byte that cannot be part of any frame
/// makes the string malformed, and a string that ends before that is
/// incomplete. Reserved bits and bytes are not looked at. A payload length
/// above [`MAX_PAYLOAD_LEN`] makes the string malformed.
pub open spec fn decode_spec(s: Seq<u8>) -> Decoded {
    if s.len() < 1 {
        Decoded::Incomplete
    } else if !known_tag(s[0]) {
        Decoded::Malformed
    } else if s.len() < 2 {
        Decoded::Incomplete
    } else {
        let tag = s[0];
        let flags = s[1];
        if tag == 1 {
            Decoded::Complete { frame: Frame::CloseConnection { server: bit0(flags) }, consumed: 2 }
        } else if tag == 2 {
            decode_connect(s)
        } else if tag == 3 {
            Decoded::Complete {
                frame: Frame::Connected { mail_available: bit1(flags), keep_alive: bit0(flags) },
                consumed: 2,
            }
        } else if tag == 4 {
            decode_unauthorized(s)
        } else if tag == 5 {
            decode_connect_failed(s)
        } else if tag == 8 {
            Decoded::Complete { frame: Frame::Heartbeat(flags), consumed: 2 }
        } else if tag == 9 {
            Decoded::Complete { frame: Frame::HeartbeatAck { successful: bit0(flags) }, consumed: 2 }
        } else if tag == 10 {
            decode_pulse(s)
        } else if tag == 11 {
            decode_pulse_resp(s)
        } else if tag == 20 {
            if s.len() < 12 {
                Decoded::Incomplete
            } else {
                Decoded::Complete {
                    frame: Frame::NewMailEvent {
                        mailbox_size: u16_at(s, 2),
                        pulse_id: u64_at(s, 4),
                    },
                    consumed: 12,
                }
            }
        } else if tag == 21 {
            if s.len() < 10 {
                Decoded::Incomplete
            } else {
                Decoded::Complete {
                    frame: Frame::MailboxNext { header_only: bit0(flags), txn_id: u64_at(s, 2) },
                    consumed: 10,
                }
            }
        } else if tag == 22 {
            decode_mailbox_next_resp(s)
        } else if tag == 25 {
            decode_ack_mail(s)
        } else {
            decode_ack_mail_resp(s)
        }
    }
}

/// What reading frames off the front of a buffer yields: the frames read,
/// in order, the bytes that stay behind, and whether reading stopped at
/// malformed bytes.
pub struct Drained {
    pub frames: Seq<Frame>,
    pub rest: Seq<u8>,
    pub failed: bool,
}

/// Reads frames off the front of `s` for as long as a whole frame stands
/// there. What stays behind is the incomplete tail, or the bytes from the
/// malformed frame on.
pub open spec fn drain_spec(s: Seq<u8>) -> Drained
    decreases s.len(),
{
    match decode_spec(s) {
        Decoded::Complete { frame, consumed } => if 0 < consumed <= s.len() {
            let after = drain_spec(s.skip(consumed));
            Drained { frames: seq![frame] + after.frames, rest: after.rest, failed: after.failed }
        } else {
            Drained { frames: Seq::empty(), rest: s, failed: false }
        },
        Decoded::Incomplete => Drained { frames: Seq::empty(), rest: s, failed: false },
        Decoded::Malformed => Drained { frames: Seq::empty(), rest: s, failed: true },
    }
}

/// The frames that a list of packets stands for.
pub open spec fn frames_of(packets: Seq<MoonlightPacket>) -> Seq<Frame> {
    Seq::new(packets.len(), |i: int| packets[i]@)
}

/// A whole frame takes at least its tag and flags, and no more bytes than
/// there are.
pub proof fn lemma_consumed_bounds(s: Seq<u8>)
    ensures
        decode_spec(s) matches Decoded::Complete { consumed, .. } ==> 2 <= consumed <= s.len(),
{
}

/// Whether what the decoder returned says what `d` says.
pub open spec fn decode_matches(
    r: Result<Option<(MoonlightPacket, usize)>, CodecError>,
    d: Decoded,
) -> bool {
    match d {
        Decoded::Complete { frame, consumed } => r matches Ok(Some((packet, n))) && packet@
            == frame && n == consumed,
        Decoded::Incomplete => r matches Ok(None),
        Decoded::Malformed => r matches Err(CodecError::DecodeFailed),
    }
}


fn flag_byte(b: bool) -> (r: u8)
    ensures
        r == flag(b),
{
    if b {
        1
    } else {
        0
    }
}

/// A copy of the bytes of `bytes` from `from` up to `to`.
fn copy_range(bytes: &[u8], from: usize, to: usize) -> (v: Vec<u8>)
    requires
        from <= to <= bytes@.len(),
    ensures
        v@ == bytes@.subrange(from as int, to as int),
{
    slice_to_vec(slice_subrange(bytes, from, to))
}

/// Whether the fields of a packet agree with each other.
pub fn well_formed(packet: &MoonlightPacket) -> (r: bool)
    ensures
        r == packet@.wf(),
{
    match packet {
        MoonlightPacket::Connect { fleet_id, device_id, device_secret, .. } => {
            fleet_id.len() == 8 && device_id.len() == 10 && device_secret.len() == 36
        },
        MoonlightPacket::Pulse { name_len, name, payload_len, payload, .. } => {
            name.len() == *name_len as usize && payload.len() == *payload_len as usize
        },
        MoonlightPacket::PulseResp { successful, error_reason, .. } => {
            error_reason.is_some() == !*successful
        },
        MoonlightPacket::MailboxNextResp {
            header_only,
            successful,
            mailbox_size,
            pulse_id,
            name_len,
            name,
            payload_len,
            payload,
            ..
        } => {
            let has_mail = *successful && *mailbox_size > 0;
            let has_payload = has_mail && !*header_only;
            let name_ok = match (name_len, name) {
                (Some(n), Some(bytes)) => has_mail && bytes.len() == *n as usize,
                (None, None) => !has_mail,
                _ => false,
            };
            let payload_ok = match (payload_len, payload) {
                (Some(n), Some(bytes)) => has_payload && bytes.len() == *n as usize,
                (None, None) => !has_payload,
                _ => false,
            };
            pulse_id.is_some() == has_mail && name_ok && payload_ok
        },
        _ => true,
    }
}

/// The streaming decoder's buffer: the bytes that have arrived and have
/// not yet been read as frames.
#[derive(Debug, Clone, PartialEq, Eq, Hash)]
pub struct Codec {
    buffer: Vec<u8>,
}

impl View for Codec {
    type V = Seq<u8>;

    closed spec fn view(&self) -> Seq<u8> {
        self.buffer@
    }
}

impl Codec {
    /// A codec with an empty buffer.
    pub fn new() -> (codec: Codec)
        ensures
            codec@ == Seq::<u8>::empty(),
    {
        Codec { buffer: Vec::with_capacity(1024 * 1024) }
    }

    /// Appends bytes that have arrived to the buffer.
    pub fn feed(&mut self, data: &[u8])
        ensures
            final(self)@ == old(self)@ + data@,
    {
        self.buffer.extend_from_slice(data);
    }

    /// The bytes that wait in the buffer.
    pub fn buffered(&self) -> (bytes: &[u8])
        ensures
            bytes@ == self@,
    {
        self.buffer.as_slice()
    }

    /// The bytes of a packet. Fails exactly when the packet is not
    /// well-formed.
    pub fn encode(packet: &MoonlightPacket) -> (r: Result<Vec<u8>, CodecError>)
        ensures
            match r {
                Ok(bytes) => packet@.wf() && bytes@ == encode_spec(packet@),
                Err(e) => !packet@.wf() && e == CodecError::InvalidPacket,
            },
    {
        if !well_formed(packet) {
            return Err(CodecError::InvalidPacket);
        }
        let mut out: Vec<u8> = Vec::new();
        match packet {
            MoonlightPacket::CloseConnection { server } => {
                out.push(1);
                out.push(flag_byte(*server));
            },
            MoonlightPacket::Connect {
                keep_alive,
                protocol_version,
                serialization_format,
                fleet_id,
                device_id,
                device_secret,
            } => {
                out.push(2);
                out.push(flag_byte(*keep_alive));
                out.push(*protocol_version);
                out.push(serialization_format.code());
                out.extend_from_slice(fleet_id.as_slice());
                out.extend_from_slice(device_id.as_slice());
                out.extend_from_slice(device_secret.as_slice());
            },
            MoonlightPacket::Connected { mail_available, keep_alive } => {
                out.push(3);
                out.push(flag_byte(*keep_alive) + 2 * flag_byte(*mail_available));
            },
            MoonlightPacket::Unauthorized { reason } => {
                out.push(4);
                out.push(0);
                out.push(reason.code());
            },
            MoonlightPacket::ConnectFailed { reason } => {
                out.push(5);
                out.push(0);
                out.push(reason.code());
            },
            MoonlightPacket::Heartbeat(b) => {
                out.push(8);
                out.push(*b);
            },
            MoonlightPacket::HeartbeatAck { successful } => {
                out.push(9);
                out.push(flag_byte(*successful));
            },
            MoonlightPacket::Pulse { pulse_type, pulse_id, name_len, name, payload_len, payload } => {
                out.push(10);
                out.push(0);
                out.push(pulse_type.code());
                put_u64(&mut out, *pulse_id);
                out.push(*name_len);
                out.extend_from_slice(name.as_slice());
                put_u32(&mut out, *payload_len);
                out.extend_from_slice(payload.as_slice());
            },
            MoonlightPacket::PulseResp { successful, pulse_id, error_reason } => {
                out.push(11);
                out.push(flag_byte(*successful));
                put_u64(&mut out, *pulse_id);
                match error_reason {
                    Some(reason) => {
                        out.push(reason.code());
                    },
                    None => {},
                }
            },
            MoonlightPacket::NewMailEvent { mailbox_size, pulse_id } => {
                out.push(20);
                out.push(0);
                put_u16(&mut out, *mailbox_size);
                put_u64(&mut out, *pulse_id);
            },
            MoonlightPacket::MailboxNext { header_only, txn_id } => {
                out.push(21);
                out.push(flag_byte(*header_only));
                put_u64(&mut out, *txn_id);
            },
            MoonlightPacket::MailboxNextResp {
                header_only,
                successful,
                txn_id,
                mailbox_size,
                pulse_id,
                name_len,
                name,
                payload_len,
                payload,
            } => {
                out.push(22);
                out.push(flag_byte(*successful) + 2 * flag_byte(*header_only));
                put_u64(&mut out, *txn_id);
                put_u16(&mut out, *mailbox_size);
                match pulse_id {
                    Some(id) => {
                        put_u64(&mut out, *id);
                    },
                    None => {},
                }
                match name_len {
                    Some(n) => {
                        out.push(*n);
                    },
                    None => {},
                }
                match name {
                    Some(bytes) => {
                        out.extend_from_slice(bytes.as_slice());
                    },
                    None => {},
                }
                match payload_len {
                    Some(n) => {
                        put_u32(&mut out, *n);
                    },
                    None => {},
                }
                match payload {
                    Some(bytes) => {
                        out.extend_from_slice(bytes.as_slice());
                    },
                    None => {},
                }
            },
            MoonlightPacket::AckMail { pulse_id, ack_type } => {
                out.push(25);
                out.push(0);
                put_u64(&mut out, *pulse_id);
                out.push(ack_type.code());
            },
            MoonlightPacket::AckMailResp { successful, mailbox_size, pulse_id, ack_type } => {
                out.push(26);
                out.push(flag_byte(*successful));
                put_u16(&mut out, *mailbox_size);
                put_u64(&mut out, *pulse_id);
                out.push(ack_type.code());
            },
        }
        assert(out@ =~= encode_spec(packet@));
        Ok(out)
    }

    /// Reads every whole packet off the front of the buffer, in order, and
    /// keeps the incomplete tail for later. Fails when it meets malformed
    /// bytes; the packets read before them are then lost, and the buffer
    /// holds the bytes from the malformed ones on.
    pub fn process_packets(&mut self) -> (r: Result<Vec<MoonlightPacket>, CodecError>)
        ensures
            final(self)@ == drain_spec(old(self)@).rest,
            match r {
                Ok(packets) => !drain_spec(old(self)@).failed && frames_of(packets@) == drain_spec(
                    old(self)@,
                ).frames,
                Err(e) => drain_spec(old(self)@).failed && e == CodecError::DecodeFailed,
            },
    {
        let mut packets: Vec<MoonlightPacket> = Vec::new();
        let mut pos: usize = 0;
        let mut failed = false;
        let ghost whole = self.buffer@;
        assert(whole.skip(0) =~= whole);
        assert(frames_of(packets@) =~= Seq::<Frame>::empty());
        loop
            invariant_except_break
                !failed,
            invariant
                self.buffer@ == whole,
                pos <= whole.len(),
                drain_spec(whole).frames == frames_of(packets@) + drain_spec(
                    whole.skip(pos as int),
                ).frames,
                drain_spec(whole).rest == drain_spec(whole.skip(pos as int)).rest,
                drain_spec(whole).failed == drain_spec(whole.skip(pos as int)).failed,
            ensures
                drain_spec(whole.skip(pos as int)).frames == Seq::<Frame>::empty(),
                drain_spec(whole.skip(pos as int)).rest == whole.skip(pos as int),
                drain_spec(whole.skip(pos as int)).failed == failed,
            decreases whole.len() - pos,
        {
            let len = self.buffer.len();
            let rest = slice_subrange(self.buffer.as_slice(), pos, len);
            assert(rest@ =~= whole.skip(pos as int));
            proof {
                lemma_consumed_bounds(rest@);
            }
            match Codec::decode(rest) {
                Ok(Some((packet, consumed))) => {
                    proof {
                        let before = frames_of(packets@);
                        let after = frames_of(packets@.push(packet));
                        assert(after =~= before + seq![packet@]);
                        assert(whole.skip(pos as int).skip(consumed as int) =~= whole.skip(
                            pos + consumed,
                        ));
                    }
                    packets.push(packet);
                    pos = pos + consumed;
                },
                Ok(None) => {
                    break ;
                },
                Err(_) => {
                    failed = true;
                    break ;
                },
            }
        }
        let tail = self.buffer.split_off(pos);
        self.buffer = tail;
        proof {
            assert(self.buffer@ =~= whole.skip(pos as int));
            assert(frames_of(packets@) + Seq::<Frame>::empty() =~= frames_of(packets@));
        }
        if failed {
            Err(CodecError::DecodeFailed)
        } else {
            Ok(packets)
        }
    }

    /// Reads the packet at the start of `bytes`: the packet and the number
    /// of bytes it takes, nothing where the bytes end before the packet
    /// does, or an error where they are malformed.
    pub fn decode(bytes: &[u8]) -> (r: Result<Option<(MoonlightPacket, usize)>, CodecError>)
        ensures
            decode_matches(r, decode_spec(bytes@)),
    {
        let len = bytes.len();
        if len < 1 {
            return Ok(None);
        }
        let tag = bytes[0];
        if !(tag == 1 || tag == 2 || tag == 3 || tag == 4 || tag == 5 || tag == 8 || tag == 9
            || tag == 10 || tag == 11 || tag == 20 || tag == 21 || tag == 22 || tag == 25 || tag
            == 26) {
            return Err(CodecError::DecodeFailed);
        }
        if len < 2 {
            return Ok(None);
        }
        let flags = bytes[1];
        if tag == 1 {
            Ok(Some((MoonlightPacket::CloseConnection { server: flags % 2 == 1 }, 2)))
        } else if tag == 2 {
            decode_connect_packet(bytes)
        } else if tag == 3 {
            Ok(
                Some(
                    (
                        MoonlightPacket::Connected {
                            mail_available: (flags / 2) % 2 == 1,
                            keep_alive: flags % 2 == 1,
                        },
                        2,
                    ),
                ),
            )
        } else if tag == 4 {
            if len < 3 {
                return Ok(None);
            }
            match UnauthorizedError::from_code(bytes[2]) {
                None => Err(CodecError::DecodeFailed),
                Some(reason) => Ok(Some((MoonlightPacket::Unauthorized { reason }, 3))),
            }
        } else if tag == 5 {
            if len < 3 {
                return Ok(None);
            }
            match ConnectFailedError::from_code(bytes[2]) {
                None => Err(CodecError::DecodeFailed),
                Some(reason) => Ok(Some((MoonlightPacket::ConnectFailed { reason }, 3))),
            }
        } else if tag == 8 {
            Ok(Some((MoonlightPacket::Heartbeat(flags), 2)))
        } else if tag == 9 {
            Ok(Some((MoonlightPacket::HeartbeatAck { successful: flags % 2 == 1 }, 2)))
        } else if tag == 10 {
            decode_pulse_packet(bytes)
        } else if tag == 11 {
            decode_pulse_resp_packet(bytes)
        } else if tag == 20 {
            if len < 12 {
                return Ok(None);
            }
            Ok(
                Some(
                    (
                        MoonlightPacket::NewMailEvent {
                            mailbox_size: get_u16(bytes, 2),
                            pulse_id: get_u64(bytes, 4),
                        },
                        12,
                    ),
                ),
            )
        } else if tag == 21 {
            if len < 10 {
                return Ok(None);
            }
            Ok(
                Some(
                    (
                        MoonlightPacket::MailboxNext {
                            header_only: flags % 2 == 1,
                            txn_id: get_u64(bytes, 2),
                        },
                        10,
                    ),
                ),
            )
        } else if tag == 22 {
            decode_mailbox_next_resp_packet(bytes)
        } else if tag == 25 {
            if len < 11 {
                return Ok(None);
            }
            match MailAckType::from_code(bytes[10]) {
                None => Err(CodecError::DecodeFailed),
                Some(ack_type) => Ok(
                    Some((MoonlightPacket::AckMail { pulse_id: get_u64(bytes, 2), ack_type }, 11)),
                ),
            }
        } else {
            if len < 13 {
                return Ok(None);
            }
            match MailAckType::from_code(bytes[12]) {
                None => Err(CodecError::DecodeFailed),
                Some(ack_type) => Ok(
                    Some(
                        (
                            MoonlightPacket::AckMailResp {
                                successful: flags % 2 == 1,
                                mailbox_size: get_u16(bytes, 2),
                                pulse_id: get_u64(bytes, 4),
                                ack_type,
                            },
                            13,
                        ),
                    ),
                ),
            }
        }
    }
}

fn decode_connect_packet(bytes: &[u8]) -> (r: Result<Option<(MoonlightPacket, usize)>, CodecError>)
    requires
        bytes@.len() >= 2,
    ensures
        decode_matches(r, decode_connect(bytes@)),
{
    let len = bytes.len();
    if len < 4 {
        return Ok(None);
    }
    let serialization_format = match SerializationFormat::from_code(bytes[3]) {
        None => {
            return Err(CodecError::DecodeFailed);
        },
        Some(f) => f,
    };
    if len < 58 {
        return Ok(None);
    }
    let packet = MoonlightPacket::Connect {
        keep_alive: bytes[1] % 2 == 1,
        protocol_version: bytes[2],
        serialization_format,
        fleet_id: copy_range(bytes, 4, 12),
        device_id: copy_range(bytes, 12, 22),
        device_secret: copy_range(bytes, 22, 58),
    };
    Ok(Some((packet, 58)))
}

fn decode_pulse_packet(bytes: &[u8]) -> (r: Result<Option<(MoonlightPacket, usize)>, CodecError>)
    requires
        bytes@.len() >= 2,
    ensures
        decode_matches(r, decode_pulse(bytes@)),
{
    let len = bytes.len();
    if len < 3 {
        return Ok(None);
    }
    let pulse_type = match PulseType::from_code(bytes[2]) {
        None => {
            return Err(CodecError::DecodeFailed);
        },
        Some(t) => t,
    };
    if len < 12 {
        return Ok(None);
    }
    let name_len: u8 = bytes[11];
    let name_end: usize = 12 + name_len as usize;
    if len < name_end + 4 {
        return Ok(None);
    }
    let payload_len: u32 = get_u32(bytes, name_end);
    if payload_len > MAX_PAYLOAD_LEN {
        return Err(CodecError::DecodeFailed);
    }
    let payload_start: usize = name_end + 4;
    let end: usize = payload_start + payload_len as usize;
    if len < end {
        return Ok(None);
    }
    let packet = MoonlightPacket::Pulse {
        pulse_type,
        pulse_id: get_u64(bytes, 3),
        name_len,
        name: copy_range(bytes, 12, name_end),
        payload_len,
        payload: copy_range(bytes, payload_start, end),
    };
    Ok(Some((packet, end)))
}

fn decode_pulse_resp_packet(bytes: &[u8]) -> (r: Result<
    Option<(MoonlightPacket, usize)>,
    CodecError,
>)
    requires
        bytes@.len() >= 2,
    ensures
        decode_matches(r, decode_pulse_resp(bytes@)),
{
    let len = bytes.len();
    if len < 10 {
        return Ok(None);
    }
    let pulse_id = get_u64(bytes, 2);
    if bytes[1] % 2 == 1 {
        return Ok(
            Some((MoonlightPacket::PulseResp { successful: true, pulse_id, error_reason: None }, 10)),
        );
    }
    if len < 11 {
        return Ok(None);
    }
    match PulseErrorReason::from_code(bytes[10]) {
        None => Err(CodecError::DecodeFailed),
        Some(reason) => Ok(
            Some(
                (
                    MoonlightPacket::PulseResp {
                        successful: false,
                        pulse_id,
                        error_reason: Some(reason),
                    },
                    11,
                ),
            ),
        ),
    }
}

fn decode_mailbox_next_resp_packet(bytes: &[u8]) -> (r: Result<
    Option<(MoonlightPacket, usize)>,
    CodecError,
>)
    requires
        bytes@.len() >= 2,
    ensures
        decode_matches(r, decode_mailbox_next_resp(bytes@)),
{
    let len = bytes.len();
    if len < 12 {
        return Ok(None);
    }
    let header_only = (bytes[1] / 2) % 2 == 1;
    let successful = bytes[1] % 2 == 1;
    let txn_id = get_u64(bytes, 2);
    let mailbox_size = get_u16(bytes, 10);
    if !(successful && mailbox_size > 0) {
        let packet = MoonlightPacket::MailboxNextResp {
            header_only,
            successful,
            txn_id,
            mailbox_size,
            pulse_id: None,
            name_len: None,
            name: None,
            payload_len: None,
            payload: None,
        };
        return Ok(Some((packet, 12)));
    }
    if len < 21 {
        return Ok(None);
    }
    let pulse_id = get_u64(bytes, 12);
    let name_len: u8 = bytes[20];
    let name_end: usize = 21 + name_len as usize;
    if len < name_end {
        return Ok(None);
    }
    if header_only {
        let packet = MoonlightPacket::MailboxNextResp {
            header_only,
            successful,
            txn_id,
            mailbox_size,
            pulse_id: Some(pulse_id),
            name_len: Some(name_len),
            name: Some(copy_range(bytes, 21, name_end)),
            payload_len: None,
            payload: None,
        };
        return Ok(Some((packet, name_end)));
    }
    if len < name_end + 4 {
        return Ok(None);
    }
    let payload_len: u32 = get_u32(bytes, name_end);
    if payload_len > MAX_PAYLOAD_LEN {
        return Err(CodecError::DecodeFailed);
    }
    let payload_start: usize = name_end + 4;
    let end: usize = payload_start + payload_len as usize;
    if len < end {
        return Ok(None);
    }
    let packet = MoonlightPacket::MailboxNextResp {
        header_only,
        successful,
        txn_id,
        mailbox_size,
        pulse_id: Some(pulse_id),
        name_len: Some(name_len),
        name: Some(copy_range(bytes, 21, name_end)),
        payload_len: Some(payload_len),
        payload: Some(copy_range(bytes, payload_start, end)),
    };
    Ok(Some((packet, end)))
}

} // verus!
