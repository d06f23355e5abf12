//! What the encoder and the decoder owe each other: a frame that was
//! encoded is read back as it was, whatever follows it; a frame of which
//! only a part has arrived is not read yet; and bytes that once made a
//! whole frame, or a malformed one, still do when more bytes follow.

use vstd::prelude::*;
use crate::codec::{
    decode_ack_mail,
    decode_ack_mail_resp,
    decode_connect,
    decode_connect_failed,
    decode_mailbox_next_resp,
    decode_pulse,
    decode_pulse_resp,
    decode_spec,
    decode_unauthorized,
    encode_spec,
    flag,
    known_tag,
    Decoded,
    MAX_PAYLOAD_LEN,
};
use crate::packet::Frame;
use crate::wire::{
    lemma_u16_round_trip,
    lemma_u32_round_trip,
    lemma_same_bytes_same_numbers,
    lemma_u64_round_trip,
    lemma_widths,
    u16_bytes,
    u32_bytes,
    u64_bytes,
};

verus! {

/// Whether the decoder accepts the frame's payload: it is no longer than
/// [`MAX_PAYLOAD_LEN`].
pub open spec fn within_cap(f: Frame) -> bool {
    f.announced_payload_len() <= MAX_PAYLOAD_LEN
}

/// The length of a well-formed frame's bytes.
pub open spec fn encoded_len(f: Frame) -> int {
    match f {
        Frame::CloseConnection { .. } => 2,
        Frame::Connect { .. } => 58,
        Frame::Connected { .. } => 2,
        Frame::Unauthorized { .. } => 3,
        Frame::ConnectFailed { .. } => 3,
        Frame::Heartbeat(_) => 2,
        Frame::HeartbeatAck { .. } => 2,
        Frame::Pulse { name_len, payload_len, .. } => 16 + name_len + payload_len,
        Frame::PulseResp { successful, .. } => if successful {
            10
        } else {
            11
        },
        Frame::NewMailEvent { .. } => 12,
        Frame::MailboxNext { .. } => 10,
        Frame::MailboxNextResp { header_only, successful, mailbox_size, name_len, payload_len, .. } => {
            if !(successful && mailbox_size > 0) {
                12
            } else if header_only {
                21 + name_len->0
            } else {
                25 + name_len->0 + payload_len->0
            }
        },
        Frame::AckMail { .. } => 11,
        Frame::AckMailResp { .. } => 13,
    }
}

/// A well-formed frame takes as many bytes as its fields say.
pub proof fn lemma_encoded_len(f: Frame)
    requires
        f.wf(),
    ensures
        encode_spec(f).len() == encoded_len(f),
        encoded_len(f) >= 2,
{
    match f {
        Frame::Pulse { pulse_id, payload_len, .. } => {
            lemma_widths(0, payload_len, pulse_id);
        },
        Frame::PulseResp { pulse_id, .. } => {
            lemma_widths(0, 0, pulse_id);
        },
        Frame::NewMailEvent { mailbox_size, pulse_id } => {
            lemma_widths(mailbox_size, 0, pulse_id);
        },
        Frame::MailboxNext { txn_id, .. } => {
            lemma_widths(0, 0, txn_id);
        },
        Frame::MailboxNextResp { txn_id, mailbox_size, pulse_id, payload_len, .. } => {
            lemma_widths(mailbox_size, 0, txn_id);
            if pulse_id is Some {
                lemma_widths(0, 0, pulse_id->0);
            }
            if payload_len is Some {
                lemma_widths(0, payload_len->0, 0);
            }
        },
        Frame::AckMail { pulse_id, .. } => {
            lemma_widths(0, 0, pulse_id);
        },
        Frame::AckMailResp { mailbox_size, pulse_id, .. } => {
            lemma_widths(mailbox_size, 0, pulse_id);
        },
        _ => {},
    }
}

/// Whether `p` is what `s` begins with.
pub open spec fn is_prefix(p: Seq<u8>, s: Seq<u8>) -> bool {
    p.len() <= s.len() && s.subrange(0, p.len() as int) == p
}

/// Where `s` begins with two byte strings, joined, it begins with the
/// first, and the second stands where the first ends.
proof fn lemma_split(s: Seq<u8>, first: Seq<u8>, second: Seq<u8>)
    requires
        is_prefix(first + second, s),
    ensures
        is_prefix(first, s),
        first.len() + second.len() <= s.len(),
        s.subrange(first.len() as int, (first.len() + second.len()) as int) == second,
        forall|i: int| 0 <= i < first.len() ==> s[i] == first[i],
        forall|i: int| 0 <= i < second.len() ==> s[first.len() + i] == second[i],
{
    let joined = first + second;
    let start = s.subrange(0, joined.len() as int);
    assert forall|i: int| 0 <= i < joined.len() implies s[i] == joined[i] by {
        assert(start[i] == s[i]);
    }
    assert(s.subrange(0, first.len() as int) =~= first);
    assert(s.subrange(first.len() as int, (first.len() + second.len()) as int) =~= second) by {
        assert forall|i: int| 0 <= i < second.len() implies s[first.len() + i] == second[i] by {
            assert(joined[first.len() + i] == second[i]);
        }
    }
    assert forall|i: int| 0 <= i < second.len() implies s[first.len() + i] == second[i] by {
        assert(joined[first.len() + i] == second[i]);
    }
}

/// A byte string begins with itself, whatever follows.
proof fn lemma_prefix_of_joined(e: Seq<u8>, rest: Seq<u8>)
    ensures
        is_prefix(e, e + rest),
{
    assert((e + rest).subrange(0, e.len() as int) =~= e);
}

proof fn lemma_decode_encode_connect(f: Frame, rest: Seq<u8>)
    requires
        f.wf(),
        f is Connect,
    ensures
        decode_spec(encode_spec(f) + rest) == (Decoded::Complete {
            frame: f,
            consumed: encode_spec(f).len() as int,
        }),
{
    let e = encode_spec(f);
    let s = e + rest;
    lemma_prefix_of_joined(e, rest);
    match f {
        Frame::Connect {
            keep_alive,
            protocol_version,
            serialization_format,
            fleet_id,
            device_id,
            device_secret,
        } => {
            let head = seq![
                2u8,
                flag(keep_alive),
                protocol_version,
                serialization_format.spec_code(),
            ];
            assert(e == head + fleet_id + device_id + device_secret);
            lemma_split(s, head + fleet_id + device_id, device_secret);
            lemma_split(s, head + fleet_id, device_id);
            lemma_split(s, head, fleet_id);
            assert(s[0] == head[0] && s[1] == head[1] && s[2] == head[2] && s[3] == head[3]);
        },
        _ => {},
    }
}

proof fn lemma_decode_encode_pulse(f: Frame, rest: Seq<u8>)
    requires
        f.wf(),
        within_cap(f),
        f is Pulse,
    ensures
        decode_spec(encode_spec(f) + rest) == (Decoded::Complete {
            frame: f,
            consumed: encode_spec(f).len() as int,
        }),
{
    let e = encode_spec(f);
    let s = e + rest;
    lemma_prefix_of_joined(e, rest);
    match f {
        Frame::Pulse { pulse_type, pulse_id, name_len, name, payload_len, payload } => {
            lemma_widths(0, payload_len, pulse_id);
            let head = seq![10u8, 0u8, pulse_type.spec_code()];
            let id = u64_bytes(pulse_id);
            let nl = seq![name_len];
            let pl = u32_bytes(payload_len);
            assert(e == head + id + nl + name + pl + payload);
            lemma_split(s, head + id + nl + name + pl, payload);
            lemma_split(s, head + id + nl + name, pl);
            lemma_split(s, head + id + nl, name);
            lemma_split(s, head + id, nl);
            lemma_split(s, head, id);
            assert(s[0] == head[0] && s[1] == head[1] && s[2] == head[2]);
            assert(s[11] == nl[0]);
            lemma_u64_round_trip(s, 3, pulse_id);
            lemma_u32_round_trip(s, 12 + name_len, payload_len);
        },
        _ => {},
    }
}

proof fn lemma_decode_encode_mailbox_next_resp(f: Frame, rest: Seq<u8>)
    requires
        f.wf(),
        within_cap(f),
        f is MailboxNextResp,
    ensures
        decode_spec(encode_spec(f) + rest) == (Decoded::Complete {
            frame: f,
            consumed: encode_spec(f).len() as int,
        }),
{
    let e = encode_spec(f);
    let s = e + rest;
    lemma_prefix_of_joined(e, rest);
    match f {
        Frame::MailboxNextResp {
            header_only,
            successful,
            txn_id,
            mailbox_size,
            pulse_id,
            name_len,
            name,
            payload_len,
            payload,
        } => {
            lemma_widths(mailbox_size, 0, txn_id);
            let head = seq![22u8, (flag(successful) + 2 * flag(header_only)) as u8];
            let txn = u64_bytes(txn_id);
            let size = u16_bytes(mailbox_size);
            let none = Seq::<u8>::empty();
            if !(successful && mailbox_size > 0) {
                assert(e == head + txn + size + none + none + none + none + none);
                assert(e =~= head + txn + size);
                lemma_split(s, head + txn, size);
                lemma_split(s, head, txn);
                assert(s[0] == head[0] && s[1] == head[1]);
                lemma_u64_round_trip(s, 2, txn_id);
                lemma_u16_round_trip(s, 10, mailbox_size);
            } else {
                let id = u64_bytes(pulse_id->0);
                let n = name_len->0;
                let nl = seq![n];
                let nm = name->0;
                lemma_widths(0, 0, pulse_id->0);
                if header_only {
                    assert(e == head + txn + size + id + nl + nm + none + none);
                    assert(e =~= head + txn + size + id + nl + nm);
                    lemma_split(s, head + txn + size + id + nl, nm);
                    lemma_split(s, head + txn + size + id, nl);
                    lemma_split(s, head + txn + size, id);
                    lemma_split(s, head + txn, size);
                    lemma_split(s, head, txn);
                    assert(s[0] == head[0] && s[1] == head[1]);
                    assert(s[20] == nl[0]);
                    lemma_u64_round_trip(s, 2, txn_id);
                    lemma_u16_round_trip(s, 10, mailbox_size);
                    lemma_u64_round_trip(s, 12, pulse_id->0);
                } else {
                    let plen = payload_len->0;
                    let pl = u32_bytes(plen);
                    let pay = payload->0;
                    lemma_widths(0, plen, 0);
                    assert(e == head + txn + size + id + nl + nm + pl + pay);
                    lemma_split(s, head + txn + size + id + nl + nm + pl, pay);
                    lemma_split(s, head + txn + size + id + nl + nm, pl);
                    lemma_split(s, head + txn + size + id + nl, nm);
                    lemma_split(s, head + txn + size + id, nl);
                    lemma_split(s, head + txn + size, id);
                    lemma_split(s, head + txn, size);
                    lemma_split(s, head, txn);
                    assert(s[0] == head[0] && s[1] == head[1]);
                    assert(s[20] == nl[0]);
                    lemma_u64_round_trip(s, 2, txn_id);
                    lemma_u16_round_trip(s, 10, mailbox_size);
                    lemma_u64_round_trip(s, 12, pulse_id->0);
                    lemma_u32_round_trip(s, 21 + n, plen);
                }
            }
        },
        _ => {},
    }
}

proof fn lemma_decode_encode_short(f: Frame, rest: Seq<u8>)
    requires
        f.wf(),
        !(f is Connect),
        !(f is Pulse),
        !(f is MailboxNextResp),
    ensures
        decode_spec(encode_spec(f) + rest) == (Decoded::Complete {
            frame: f,
            consumed: encode_spec(f).len() as int,
        }),
{
    let e = encode_spec(f);
    let s = e + rest;
    lemma_prefix_of_joined(e, rest);
    match f {
        Frame::PulseResp { successful, pulse_id, error_reason } => {
            lemma_widths(0, 0, pulse_id);
            let head = seq![11u8, flag(successful)];
            let id = u64_bytes(pulse_id);
            let tail = match error_reason {
                Some(reason) => seq![reason.spec_code()],
                None => Seq::<u8>::empty(),
            };
            assert(e == head + id + tail);
            lemma_split(s, head + id, tail);
            lemma_split(s, head, id);
            assert(s[0] == head[0] && s[1] == head[1]);
            lemma_u64_round_trip(s, 2, pulse_id);
            if !successful {
                assert(s[10] == tail[0]);
            }
        },
        Frame::NewMailEvent { mailbox_size, pulse_id } => {
            lemma_widths(mailbox_size, 0, pulse_id);
            let head = seq![20u8, 0u8];
            let size = u16_bytes(mailbox_size);
            let id = u64_bytes(pulse_id);
            assert(e == head + size + id);
            lemma_split(s, head + size, id);
            lemma_split(s, head, size);
            assert(s[0] == head[0] && s[1] == head[1]);
            lemma_u16_round_trip(s, 2, mailbox_size);
            lemma_u64_round_trip(s, 4, pulse_id);
        },
        Frame::MailboxNext { header_only, txn_id } => {
            lemma_widths(0, 0, txn_id);
            let head = seq![21u8, flag(header_only)];
            let id = u64_bytes(txn_id);
            assert(e == head + id);
            lemma_split(s, head, id);
            assert(s[0] == head[0] && s[1] == head[1]);
            lemma_u64_round_trip(s, 2, txn_id);
        },
        Frame::AckMail { pulse_id, ack_type } => {
            lemma_widths(0, 0, pulse_id);
            let head = seq![25u8, 0u8];
            let id = u64_bytes(pulse_id);
            let tail = seq![ack_type.spec_code()];
            assert(e == head + id + tail);
            lemma_split(s, head + id, tail);
            lemma_split(s, head, id);
            assert(s[0] == head[0] && s[1] == head[1]);
            assert(s[10] == tail[0]);
            lemma_u64_round_trip(s, 2, pulse_id);
        },
        Frame::AckMailResp { successful, mailbox_size, pulse_id, ack_type } => {
            lemma_widths(mailbox_size, 0, pulse_id);
            let head = seq![26u8, flag(successful)];
            let size = u16_bytes(mailbox_size);
            let id = u64_bytes(pulse_id);
            let tail = seq![ack_type.spec_code()];
            assert(e == head + size + id + tail);
            lemma_split(s, head + size + id, tail);
            lemma_split(s, head + size, id);
            lemma_split(s, head, size);
            assert(s[0] == head[0] && s[1] == head[1]);
            assert(s[12] == tail[0]);
            lemma_u16_round_trip(s, 2, mailbox_size);
            lemma_u64_round_trip(s, 4, pulse_id);
        },
        _ => {
            assert(e.len() >= 2);
            assert(s[0] == e[0] && s[1] == e[1]);
            if e.len() > 2 {
                assert(s[2] == e[2]);
            }
        },
    }
}

/// A frame that was encoded is read back as it was, and the bytes that
/// follow it are left alone.
pub proof fn lemma_decode_encode(f: Frame, rest: Seq<u8>)
    requires
        f.wf(),
        within_cap(f),
    ensures
        decode_spec(encode_spec(f) + rest) == (Decoded::Complete {
            frame: f,
            consumed: encode_spec(f).len() as int,
        }),
{
    if f is Connect {
        lemma_decode_encode_connect(f, rest);
    } else if f is Pulse {
        lemma_decode_encode_pulse(f, rest);
    } else if f is MailboxNextResp {
        lemma_decode_encode_mailbox_next_resp(f, rest);
    } else {
        lemma_decode_encode_short(f, rest);
    }
}

/// Decoding what was encoded gives the frame back and takes every byte.
pub proof fn lemma_round_trip(f: Frame)
    requires
        f.wf(),
        within_cap(f),
    ensures
        decode_spec(encode_spec(f)) == (Decoded::Complete {
            frame: f,
            consumed: encode_spec(f).len() as int,
        }),
{
    lemma_decode_encode(f, Seq::empty());
    assert(encode_spec(f) + Seq::<u8>::empty() =~= encode_spec(f));
}


/// A frame of which only a part has arrived is not read yet: every strict
/// prefix of a frame's bytes is incomplete, and never malformed.
pub proof fn lemma_prefix_incomplete(f: Frame, k: int)
    requires
        f.wf(),
        within_cap(f),
        0 <= k < encode_spec(f).len(),
    ensures
        decode_spec(encode_spec(f).subrange(0, k)) == Decoded::Incomplete,
{
    let e = encode_spec(f);
    let p = e.subrange(0, k);
    lemma_round_trip(f);
    lemma_encoded_len(f);
    if k >= 1 {
        assert(p[0] == e[0]);
    }
    if k >= 2 {
        assert(p[1] == e[1]);
    }
    match f {
        Frame::Connect { .. } => {
            if k >= 4 {
                assert(p[3] == e[3]);
            }
        },
        Frame::Unauthorized { .. } => {},
        Frame::ConnectFailed { .. } => {},
        Frame::Pulse { name_len, payload_len, .. } => {
            if k >= 3 {
                assert(p[2] == e[2]);
            }
            if k >= 12 {
                assert(p[11] == e[11]);
                if k >= 16 + name_len {
                    assert(p.subrange(12 + name_len, 16 + name_len) =~= e.subrange(
                        12 + name_len,
                        16 + name_len,
                    ));
                    lemma_same_bytes_same_numbers(p, e, 12 + name_len, 4);
                }
            }
        },
        Frame::PulseResp { successful, .. } => {},
        Frame::MailboxNextResp { header_only, successful, mailbox_size, name_len, .. } => {
            if k >= 12 {
                assert(p.subrange(10, 12) =~= e.subrange(10, 12));
                lemma_same_bytes_same_numbers(p, e, 10, 2);
                if successful && mailbox_size > 0 {
                    let n = name_len->0;
                    if k >= 21 {
                        assert(p[20] == e[20]);
                        if !header_only && k >= 25 + n {
                            assert(p.subrange(21 + n, 25 + n) =~= e.subrange(21 + n, 25 + n));
                            lemma_same_bytes_same_numbers(p, e, 21 + n, 4);
                        }
                    }
                }
            }
        },
        Frame::AckMail { .. } => {},
        Frame::AckMailResp { .. } => {},
        _ => {},
    }
}

/// The bytes of `a` from `from` up to `to` are those of `a` followed by
/// anything else.
proof fn lemma_same_range(a: Seq<u8>, b: Seq<u8>, from: int, to: int)
    requires
        0 <= from <= to <= a.len(),
    ensures
        (a + b).subrange(from, to) == a.subrange(from, to),
{
    assert((a + b).subrange(from, to) =~= a.subrange(from, to));
}

/// A number that is read within `a` is the same when more bytes follow.
proof fn lemma_same_number(a: Seq<u8>, b: Seq<u8>, at: int, width: int)
    requires
        0 <= at,
        width == 2 || width == 4 || width == 8,
        at + width <= a.len(),
    ensures
        width == 2 ==> crate::wire::u16_at(a + b, at) == crate::wire::u16_at(a, at),
        width == 4 ==> crate::wire::u32_at(a + b, at) == crate::wire::u32_at(a, at),
        width == 8 ==> crate::wire::u64_at(a + b, at) == crate::wire::u64_at(a, at),
{
    lemma_same_range(a, b, at, at + width);
    lemma_same_bytes_same_numbers(a + b, a, at, width);
}

proof fn lemma_pulse_extends(a: Seq<u8>, b: Seq<u8>)
    requires
        a.len() >= 2,
        !(decode_pulse(a) is Incomplete),
    ensures
        decode_pulse(a + b) == decode_pulse(a),
{
    let s = a + b;
    assert(s[2] == a[2]);
    if crate::protocol::PulseType::spec_from_code(a[2]) is Some {
        let n = a[11];
        assert(s[11] == n);
        lemma_same_number(a, b, 12 + n, 4);
        let len = crate::wire::u32_at(a, 12 + n);
        if len <= MAX_PAYLOAD_LEN {
            lemma_same_number(a, b, 3, 8);
            lemma_same_range(a, b, 12, 12 + n);
            lemma_same_range(a, b, 16 + n, 16 + n + len);
        }
    }
}

proof fn lemma_mailbox_next_resp_extends(a: Seq<u8>, b: Seq<u8>)
    requires
        a.len() >= 2,
        !(decode_mailbox_next_resp(a) is Incomplete),
    ensures
        decode_mailbox_next_resp(a + b) == decode_mailbox_next_resp(a),
{
    let s = a + b;
    assert(s[1] == a[1]);
    lemma_same_number(a, b, 2, 8);
    lemma_same_number(a, b, 10, 2);
    if crate::codec::bit0(a[1]) && crate::wire::u16_at(a, 10) > 0 {
        let n = a[20];
        assert(s[20] == n);
        lemma_same_number(a, b, 12, 8);
        lemma_same_range(a, b, 21, 21 + n);
        if !crate::codec::bit1(a[1]) {
            lemma_same_number(a, b, 21 + n, 4);
            let len = crate::wire::u32_at(a, 21 + n);
            if len <= MAX_PAYLOAD_LEN {
                lemma_same_range(a, b, 25 + n, 25 + n + len);
            }
        }
    }
}

/// Bytes that make a whole frame, or a malformed one, still do when more
/// bytes follow: only an incomplete frame can change with what arrives.
pub proof fn lemma_decode_extends(a: Seq<u8>, b: Seq<u8>)
    requires
        !(decode_spec(a) is Incomplete),
    ensures
        decode_spec(a + b) == decode_spec(a),
{
    let s = a + b;
    assert(s[0] == a[0]);
    if known_tag(a[0]) {
        assert(s[1] == a[1]);
        let tag = a[0];
        if tag == 2 {
            assert(s[3] == a[3]);
            if crate::protocol::SerializationFormat::spec_from_code(a[3]) is Some {
                assert(s[2] == a[2]);
                lemma_same_range(a, b, 4, 12);
                lemma_same_range(a, b, 12, 22);
                lemma_same_range(a, b, 22, 58);
            }
        } else if tag == 4 || tag == 5 {
            assert(s[2] == a[2]);
        } else if tag == 10 {
            lemma_pulse_extends(a, b);
        } else if tag == 11 {
            lemma_same_number(a, b, 2, 8);
            if !crate::codec::bit0(a[1]) {
                assert(s[10] == a[10]);
            }
        } else if tag == 20 {
            lemma_same_number(a, b, 2, 2);
            lemma_same_number(a, b, 4, 8);
        } else if tag == 21 {
            lemma_same_number(a, b, 2, 8);
        } else if tag == 22 {
            lemma_mailbox_next_resp_extends(a, b);
        } else if tag == 25 {
            assert(s[10] == a[10]);
            lemma_same_number(a, b, 2, 8);
        } else if tag == 26 {
            assert(s[12] == a[12]);
            lemma_same_number(a, b, 2, 2);
            lemma_same_number(a, b, 4, 8);
        }
    }
}

/// Bytes that begin with a byte that is no tag of the protocol are
/// malformed, however few or many they are.
pub proof fn lemma_unknown_tag_is_malformed(s: Seq<u8>)
    requires
        s.len() >= 1,
        !known_tag(s[0]),
    ensures
        decode_spec(s) == Decoded::Malformed,
{
}

} // verus!
