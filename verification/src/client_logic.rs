//! The session engine: one state, changed by one event at a time.
//!
//! The engine does no input or output of its own. Its host hands it the
//! events of the session, one by one and with the time on a monotonic
//! clock in milliseconds, and carries out the effects that the engine
//! returns: bytes to write to the transport, notifications, the signal
//! that a heartbeat was acknowledged, and replies to callers. A caller is
//! known to the engine by the handle on which it waits for its reply.

use std::collections::HashMap;
use vstd::prelude::*;
use vstd::string::*;
use vstd::utf8::*;
use crate::codec::{drain_spec, encode_spec, frames_of, Codec};
use crate::creds::{cred_error, CredErr};
use crate::packet::{Frame, MoonlightPacket};
use crate::pending::{
    capacity_of,
    ids_of,
    lists_expired,
    live,
    take_expired,
    Pending,
};
use crate::protocol::{DisconnectedReason, GeneralErrors, MailAckType, PulseType, SerializationFormat};
use crate::server_resp::{handle_frame, opt_mail, Mail, MailView, ServerResp, ServerRespView};
use crate::json::opt_text;
use crate::text::{owned, parse_u64, parse_u64_spec};

verus! {

broadcast use vstd::std_specs::hash::group_hash_axioms;

/// How long the server has to answer the Connect packet, in milliseconds.
pub const AUTH_TIMEOUT_MS: u64 = 10_000;

/// What a caller gets back for its request.
#[derive(Debug, Clone, PartialEq, Eq)]
pub enum ReturnChanResult {
    Success,
    Error(String),
    Timeout,
    /// The next mail; none where the mailbox is empty.
    Mail(Option<Mail>),
    /// The mail was acknowledged; the flag says whether more mail waits.
    MailAckSuccessful(bool),
}

/// A reply, as the contracts speak of it.
pub enum ReplyView {
    Success,
    Error(Seq<char>),
    Timeout,
    Mail(Option<MailView>),
    MailAckSuccessful(bool),
}

impl View for ReturnChanResult {
    type V = ReplyView;

    open spec fn view(&self) -> ReplyView {
        match *self {
            ReturnChanResult::Success => ReplyView::Success,
            ReturnChanResult::Error(message) => ReplyView::Error(message@),
            ReturnChanResult::Timeout => ReplyView::Timeout,
            ReturnChanResult::Mail(mail) => ReplyView::Mail(opt_mail(mail)),
            ReturnChanResult::MailAckSuccessful(more) => ReplyView::MailAckSuccessful(more),
        }
    }
}

/// What a caller asks of the engine. The last field is the handle on which
/// the caller waits for the reply.
#[derive(Debug, Clone)]
pub enum ClientCmd<R> {
    /// Send a pulse of this type and name; the payload is a JSON document.
    SendPulse(PulseType, String, Option<String>, R),
    /// Fetch the next mail; the flag asks for the header only.
    MailboxNext(bool, R),
    /// Acknowledge, reject or requeue the mail with this id.
    MailOp(MailAckType, u64, R),
}

/// An event of the session.
#[derive(Debug, Clone)]
pub enum ClientEvent<R> {
    /// Time to look for requests that have waited too long.
    Refresh,
    /// Time to send a heartbeat.
    HeartbeatTick,
    /// Bytes have arrived from the server.
    TransportRecv(Vec<u8>),
    /// The transport has ended.
    TransportClose,
    /// A caller asks for something.
    Cmd(ClientCmd<R>),
}

/// What the engine asks its host to do.
#[derive(Debug, Clone, PartialEq, Eq)]
pub enum Effect<R> {
    /// Write these bytes to the transport.
    Write(Vec<u8>),
    /// Publish the notification with this name and these data.
    Notify(String, String),
    /// Tell the timer that a heartbeat was acknowledged.
    Ping,
    /// Complete the request of the caller with this handle.
    Reply(R, ReturnChanResult),
}

/// An effect, as the contracts speak of it.
pub enum EffectView<R> {
    Write(Seq<u8>),
    Notify(Seq<char>, Seq<char>),
    Ping,
    Reply(R, ReplyView),
}

impl<R> View for Effect<R> {
    type V = EffectView<R>;

    open spec fn view(&self) -> EffectView<R> {
        match *self {
            Effect::Write(bytes) => EffectView::Write(bytes@),
            Effect::Notify(name, data) => EffectView::Notify(name@, data@),
            Effect::Ping => EffectView::Ping,
            Effect::Reply(reply, value) => EffectView::Reply(reply, value@),
        }
    }
}

/// The effects that a list of effects stands for.
pub open spec fn effects_view<R>(effects: Seq<Effect<R>>) -> Seq<EffectView<R>> {
    Seq::new(effects.len(), |i: int| effects[i]@)
}

/// The state of the engine, as the contracts speak of it.
pub struct EngineView<R> {
    /// The bytes that have arrived and have not been read as frames.
    pub buffer: Seq<u8>,
    /// The id that the next request gets, if it is free.
    pub next_txn_id: u64,
    /// The requests that wait for their answer, by their ids.
    pub pending: Map<u64, Pending<R>>,
    /// Whether the server has accepted the credentials.
    pub authenticated: bool,
    /// The time by which the server has to have answered the Connect packet.
    pub auth_deadline: u64,
    /// The bytes of the Connect packet.
    pub connect_bytes: Seq<u8>,
}

/// What an event does: the state after it, the effects in the order in
/// which the host carries them out, and the reason for which the session
/// ends, if it does.
pub struct Step<R> {
    pub state: EngineView<R>,
    pub effects: Seq<EffectView<R>>,
    pub outcome: Option<DisconnectedReason>,
}

/// How an attempt to authenticate stands after an event.
#[derive(Debug, Clone, Copy, PartialEq, Eq, Structural)]
pub enum AuthOutcome {
    /// No whole frame has arrived yet.
    Waiting,
    Authenticated,
    Failed(DisconnectedReason),
}

/// What an event does during authentication.
pub struct AuthStep<R> {
    pub state: EngineView<R>,
    pub effects: Seq<EffectView<R>>,
    pub outcome: AuthOutcome,
}

/// The id that follows `id` after `k` steps; after the largest comes zero.
pub open spec fn wrap_add(id: u64, k: int) -> u64 {
    ((id + k) % 0x1_0000_0000_0000_0000) as u64
}

/// The message for a pulse name that is too long.
pub open spec fn invalid_name_text() -> Seq<char> {
    "invalid_name: Pulse Name needs to be under 255 characters."@
}

/// The message for a request for which no free id was found.
pub open spec fn txn_failed_text() -> Seq<char> {
    "txn_failed: Transaction ID Exhaustion"@
}

/// The message for a mail that could not be fetched.
pub open spec fn fetch_failed_text() -> Seq<char> {
    "failed: Failed to fetch next mail"@
}

/// A step that changes nothing and asks for nothing.
pub open spec fn idle<R>(state: EngineView<R>) -> Step<R> {
    Step { state, effects: Seq::empty(), outcome: None }
}

/// A step that ends the session.
pub open spec fn close<R>(state: EngineView<R>, reason: DisconnectedReason) -> Step<R> {
    Step { state, effects: Seq::empty(), outcome: Some(reason) }
}

/// Completing the request with this id: its caller gets the value and the
/// request leaves the table. Nothing happens where no such request is
/// pending.
pub open spec fn resolve<R>(state: EngineView<R>, txn_id: u64, value: ReplyView) -> Step<R> {
    if state.pending.contains_key(txn_id) {
        Step {
            state: EngineView { pending: state.pending.remove(txn_id), ..state },
            effects: seq![EffectView::Reply(state.pending[txn_id].reply, value)],
            outcome: None,
        }
    } else {
        idle(state)
    }
}

/// What a response of the server does once the session is authenticated.
/// A second `Connected` is a violation of the protocol and ends the
/// session.
pub open spec fn apply_resp<R>(state: EngineView<R>, resp: ServerRespView) -> Step<R> {
    match resp {
        ServerRespView::ForceCloseSocket => close(state, DisconnectedReason::ForceCloseSocket),
        ServerRespView::Disconnected(reason) => close(state, reason),
        ServerRespView::Connected(_) => close(state, DisconnectedReason::ForceCloseSocket),
        ServerRespView::HeartbeatAck => Step {
            state,
            effects: seq![EffectView::Ping],
            outcome: None,
        },
        ServerRespView::NewMail => Step {
            state,
            effects: seq![EffectView::Notify("new_mail"@, ""@)],
            outcome: None,
        },
        ServerRespView::PulseResp(Ok(txn_id)) => resolve(state, txn_id, ReplyView::Success),
        ServerRespView::PulseResp(Err((txn_id, reason))) => resolve(
            state,
            txn_id,
            ReplyView::Error(reason.text()),
        ),
        ServerRespView::AckMailResp(Ok((pulse_id, more))) => resolve(
            state,
            pulse_id,
            ReplyView::MailAckSuccessful(more),
        ),
        ServerRespView::AckMailResp(Err((pulse_id, ack_type))) => resolve(
            state,
            pulse_id,
            ReplyView::Error((GeneralErrors::AckMailFailed { pulse_id, ack_type }).text()),
        ),
        ServerRespView::MailboxNext(Ok((txn_id, mail))) => resolve(
            state,
            txn_id,
            ReplyView::Mail(mail),
        ),
        ServerRespView::MailboxNext(Err(txn_id)) => resolve(
            state,
            txn_id,
            ReplyView::Error(fetch_failed_text()),
        ),
    }
}

/// What a run of frames from the server does: each is handled in the
/// order of arrival, and the frames after one that ends the session are
/// not looked at.
pub open spec fn apply_frames<R>(state: EngineView<R>, frames: Seq<Frame>) -> Step<R>
    decreases frames.len(),
{
    if frames.len() == 0 {
        idle(state)
    } else {
        let first = apply_resp(state, handle_frame(frames[0]));
        if first.outcome is Some {
            first
        } else {
            let others = apply_frames(first.state, frames.drop_first());
            Step {
                state: others.state,
                effects: first.effects + others.effects,
                outcome: others.outcome,
            }
        }
    }
}

/// What bytes from the server do: they join the buffer, every whole frame
/// is read off it and handled, and malformed bytes end the session.
pub open spec fn on_recv<R>(state: EngineView<R>, bytes: Seq<u8>) -> Step<R> {
    let drained = drain_spec(state.buffer + bytes);
    let fed = EngineView { buffer: drained.rest, ..state };
    if drained.failed {
        close(fed, DisconnectedReason::ForceCloseSocket)
    } else {
        apply_frames(fed, drained.frames)
    }
}

/// How many ids the engine tries for a request.
pub open spec fn probes() -> int {
    4
}

/// How many ids from `next_txn_id` on are taken, up to the number of
/// probes: the request gets the first free one.
pub open spec fn taken_ahead<R>(pending: Map<u64, Pending<R>>, next_txn_id: u64, k: int) -> int
    decreases probes() - k,
{
    if k >= probes() || !pending.contains_key(wrap_add(next_txn_id, k)) {
        k
    } else {
        taken_ahead(pending, next_txn_id, k + 1)
    }
}

/// Recording a request: it gets the first free id among the next four,
/// and the counter moves past every id that was tried. Where all four
/// are taken the caller is told so, the table stays as it was and the
/// session ends.
pub open spec fn allocate<R>(state: EngineView<R>, now: u64, reply: R) -> (EngineView<R>, Option<u64>) {
    let k = taken_ahead(state.pending, state.next_txn_id, 0);
    if k >= probes() {
        (EngineView { next_txn_id: wrap_add(state.next_txn_id, probes()), ..state }, None)
    } else {
        let txn_id = wrap_add(state.next_txn_id, k);
        (
            EngineView {
                next_txn_id: wrap_add(state.next_txn_id, k + 1),
                pending: state.pending.insert(txn_id, Pending { created_at: now, reply }),
                ..state
            },
            Some(txn_id),
        )
    }
}

/// The step for a request for which no free id was found.
pub open spec fn exhausted<R>(state: EngineView<R>, reply: R) -> Step<R> {
    Step {
        state,
        effects: seq![EffectView::Reply(reply, ReplyView::Error(txn_failed_text()))],
        outcome: Some(DisconnectedReason::ForceCloseSocket),
    }
}

/// The step that sends a frame: its bytes are written, or the session
/// ends where the frame cannot be encoded.
pub open spec fn send<R>(state: EngineView<R>, frame: Frame) -> Step<R> {
    if frame.wf() {
        Step { state, effects: seq![EffectView::Write(encode_spec(frame))], outcome: None }
    } else {
        close(state, DisconnectedReason::ForceCloseSocket)
    }
}

/// The Pulse frame for a command.
pub open spec fn pulse_frame(
    pulse_type: PulseType,
    txn_id: u64,
    name: Seq<char>,
    payload: Option<Seq<char>>,
) -> Frame {
    let name_bytes = encode_utf8(name);
    let payload_bytes = match payload {
        Some(text) => encode_utf8(text),
        None => Seq::empty(),
    };
    Frame::Pulse {
        pulse_type,
        pulse_id: txn_id,
        name_len: name_bytes.len() as u8,
        name: name_bytes,
        payload_len: (payload_bytes.len() % 0x1_0000_0000) as u32,
        payload: payload_bytes,
    }
}

/// What a command does.
///
/// A pulse whose name takes more than 255 bytes is refused at once. A
/// pulse and a request for the next mail get a fresh id, are recorded as
/// pending and are sent. An operation on a mail is keyed by the mail's
/// id: where a request with that id is pending already the caller is told
/// of the duplicate and nothing is sent; else the operation is recorded
/// and sent.
pub open spec fn on_cmd<R>(state: EngineView<R>, cmd: ClientCmd<R>, now: u64) -> Step<R> {
    match cmd {
        ClientCmd::SendPulse(pulse_type, name, payload, reply) => {
            if encode_utf8(name@).len() > 255 {
                Step {
                    state,
                    effects: seq![EffectView::Reply(reply, ReplyView::Error(invalid_name_text()))],
                    outcome: None,
                }
            } else {
                match allocate(state, now, reply) {
                    (after, None) => exhausted(after, reply),
                    (after, Some(txn_id)) => send(
                        after,
                        pulse_frame(pulse_type, txn_id, name@, opt_text(payload)),
                    ),
                }
            }
        },
        ClientCmd::MailboxNext(header_only, reply) => match allocate(state, now, reply) {
            (after, None) => exhausted(after, reply),
            (after, Some(txn_id)) => send(after, Frame::MailboxNext { header_only, txn_id }),
        },
        ClientCmd::MailOp(ack_type, pulse_id, reply) => {
            if state.pending.contains_key(pulse_id) {
                Step {
                    state,
                    effects: seq![
                        EffectView::Reply(
                            reply,
                            ReplyView::Error(GeneralErrors::DuplicateReq.text()),
                        ),
                    ],
                    outcome: None,
                }
            } else {
                send(
                    EngineView {
                        pending: state.pending.insert(
                            pulse_id,
                            Pending { created_at: now, reply },
                        ),
                        ..state
                    },
                    Frame::AckMail { pulse_id, ack_type },
                )
            }
        },
    }
}

/// The replies that tell the callers of the requests with these ids of
/// the timeout, in the order of the ids.
pub open spec fn timeouts<R>(pending: Map<u64, Pending<R>>, order: Seq<u64>) -> Seq<EffectView<R>> {
    Seq::new(order.len(), |i: int| EffectView::Reply(pending[order[i]].reply, ReplyView::Timeout))
}

/// What the sweep does: every request that has waited for longer than the
/// timeout leaves the table and its caller is told of the timeout. The
/// callers are told in the order in which the table is walked, which
/// `order` stands for.
pub open spec fn on_refresh<R>(state: EngineView<R>, now: u64, order: Seq<u64>) -> Step<R> {
    Step {
        state: EngineView { pending: live(state.pending, now), ..state },
        effects: timeouts(state.pending, order),
        outcome: None,
    }
}

/// What an event does once the session is authenticated. `order` is the
/// order in which a sweep walks the table; no other event looks at it.
pub open spec fn on_event<R>(
    state: EngineView<R>,
    event: ClientEvent<R>,
    now: u64,
    order: Seq<u64>,
) -> Step<R> {
    match event {
        ClientEvent::Refresh => on_refresh(state, now, order),
        ClientEvent::HeartbeatTick => Step {
            state,
            effects: seq![EffectView::Write(encode_spec(Frame::Heartbeat(0)))],
            outcome: None,
        },
        ClientEvent::TransportRecv(bytes) => on_recv(state, bytes@),
        ClientEvent::TransportClose => close(state, DisconnectedReason::ForceCloseSocket),
        ClientEvent::Cmd(cmd) => on_cmd(state, cmd, now),
    }
}

/// Whether what an event did is what `on_event` says for some order in
/// which a sweep may have walked the table.
pub open spec fn event_done<R>(
    before: EngineView<R>,
    event: ClientEvent<R>,
    now: u64,
    step: Step<R>,
) -> bool {
    if event is Refresh {
        exists|order: Seq<u64>| #[trigger]
            lists_expired(order, before.pending, now) && step == on_refresh(before, now, order)
    } else {
        step == on_event(before, event, now, Seq::empty())
    }
}

/// A failed attempt to authenticate.
pub open spec fn auth_failed<R>(state: EngineView<R>, reason: DisconnectedReason) -> AuthStep<R> {
    AuthStep { state, effects: Seq::empty(), outcome: AuthOutcome::Failed(reason) }
}

/// What an event does while the engine waits for the server's answer to
/// the Connect packet. `None` stands for an event queue that is closed or
/// has stayed empty until the deadline.
///
/// Only bytes from the server are expected, and only before the deadline.
/// The first frame decides: `Connected` authenticates the session, and
/// the frames that came with it are handled as in the authenticated
/// session; a refusal or a failed connect fails with its reason; every
/// other frame, the server's close among them, fails with a forced close.
pub open spec fn on_auth_event<R>(
    state: EngineView<R>,
    event: Option<ClientEvent<R>>,
    now: u64,
) -> AuthStep<R> {
    match event {
        Some(ClientEvent::TransportRecv(bytes)) => {
            if now >= state.auth_deadline {
                auth_failed(state, DisconnectedReason::ForceCloseSocket)
            } else {
                let drained = drain_spec(state.buffer + bytes@);
                let fed = EngineView { buffer: drained.rest, ..state };
                if drained.failed {
                    auth_failed(fed, DisconnectedReason::ForceCloseSocket)
                } else if drained.frames.len() == 0 {
                    AuthStep { state: fed, effects: Seq::empty(), outcome: AuthOutcome::Waiting }
                } else {
                    match handle_frame(drained.frames[0]) {
                        ServerRespView::Connected(mail_available) => {
                            let open = EngineView { authenticated: true, ..fed };
                            let hello = if mail_available {
                                seq![
                                    EffectView::Notify("connected"@, ""@),
                                    EffectView::Notify("new_mail"@, ""@),
                                ]
                            } else {
                                seq![EffectView::Notify("connected"@, ""@)]
                            };
                            let others = apply_frames(open, drained.frames.drop_first());
                            AuthStep {
                                state: others.state,
                                effects: hello + others.effects,
                                outcome: match others.outcome {
                                    Some(reason) => AuthOutcome::Failed(reason),
                                    None => AuthOutcome::Authenticated,
                                },
                            }
                        },
                        ServerRespView::Disconnected(
                            DisconnectedReason::Unauthorized(reason),
                        ) => auth_failed(fed, DisconnectedReason::Unauthorized(reason)),
                        ServerRespView::Disconnected(
                            DisconnectedReason::ConnectFailed(reason),
                        ) => auth_failed(fed, DisconnectedReason::ConnectFailed(reason)),
                        _ => auth_failed(fed, DisconnectedReason::ForceCloseSocket),
                    }
                }
            }
        },
        _ => auth_failed(state, DisconnectedReason::ForceCloseSocket),
    }
}


/// The engine of one session.
pub struct ClientLogic<R> {
    codec: Codec,
    next_txn_id: u64,
    pending_txns: HashMap<u64, Pending<R>>,
    connect_packet_bytes: Vec<u8>,
    authenticated: bool,
    auth_deadline: u64,
}

impl<R> View for ClientLogic<R> {
    type V = EngineView<R>;

    closed spec fn view(&self) -> EngineView<R> {
        EngineView {
            buffer: self.codec@,
            next_txn_id: self.next_txn_id,
            pending: self.pending_txns@,
            authenticated: self.authenticated,
            auth_deadline: self.auth_deadline,
            connect_bytes: self.connect_packet_bytes@,
        }
    }
}

/// Adds an effect to the end of a list of effects.
fn emit<R>(effects: &mut Vec<Effect<R>>, effect: Effect<R>)
    ensures
        effects_view(final(effects)@) == effects_view(old(effects)@) + seq![effect@],
{
    effects.push(effect);
    assert(effects_view(effects@) =~= effects_view(old(effects)@) + seq![effect@]);
}

/// The id after `id`; after the largest comes zero.
fn next_id(id: u64) -> (r: u64)
    ensures
        r == wrap_add(id, 1),
{
    if id == u64::MAX {
        0
    } else {
        id + 1
    }
}

impl<R> ClientLogic<R> {
    /// The engine for a session with these credentials, or the error that
    /// the credentials get. The engine starts with an empty buffer, no
    /// pending request and the id zero for the first request.
    pub fn new(fleet_id: String, device_id: String, device_secret: String, prod: bool) -> (r:
        Result<ClientLogic<R>, CredErr>)
        ensures
            match r {
                Ok(engine) => {
                    &&& cred_error(fleet_id@, device_id@, device_secret@) is None
                    &&& engine@ == (EngineView::<R> {
                        buffer: Seq::empty(),
                        next_txn_id: 0,
                        pending: Map::empty(),
                        authenticated: false,
                        auth_deadline: 0,
                        connect_bytes: encode_spec(
                            Frame::Connect {
                                keep_alive: true,
                                protocol_version: 1,
                                serialization_format: SerializationFormat::JSON,
                                fleet_id: encode_utf8(fleet_id@),
                                device_id: encode_utf8(device_id@),
                                device_secret: encode_utf8(device_secret@),
                            },
                        ),
                    })
                },
                Err(e) => cred_error(fleet_id@, device_id@, device_secret@) == Some(e),
            },
    {
        let (packet, _creds) = match MoonlightPacket::connect(fleet_id, device_id, device_secret, prod) {
            Ok(pair) => pair,
            Err(e) => {
                return Err(e);
            },
        };
        let connect_packet_bytes = match Codec::encode(&packet) {
            Ok(bytes) => bytes,
            Err(_) => {
                assert(false);
                Vec::new()
            },
        };
        Ok(
            ClientLogic {
                codec: Codec::new(),
                next_txn_id: 0,
                pending_txns: HashMap::with_capacity(32),
                connect_packet_bytes,
                authenticated: false,
                auth_deadline: 0,
            },
        )
    }

    /// Reads the id of a mail from its decimal numeral.
    pub fn to_pulse_id(mail_id: &str) -> (r: Result<u64, GeneralErrors>)
        ensures
            match parse_u64_spec(mail_id@) {
                Some(id) => r == Ok::<u64, GeneralErrors>(id),
                None => r == Err::<u64, GeneralErrors>(GeneralErrors::InvalidPulseID),
            },
    {
        match parse_u64(mail_id) {
            Some(id) => Ok(id),
            None => Err(GeneralErrors::InvalidPulseID),
        }
    }

    /// Whether the server has accepted the credentials.
    pub fn authenticated(&self) -> (r: bool)
        ensures
            r == self@.authenticated,
    {
        self.authenticated
    }

    /// How many requests wait for their answer.
    pub fn pending_len(&self) -> (r: usize)
        ensures
            r == self@.pending.len(),
    {
        self.pending_txns.len()
    }

    /// Whether a request with this id waits for its answer.
    pub fn has_pending(&self, txn_id: u64) -> (r: bool)
        ensures
            r == self@.pending.contains_key(txn_id),
    {
        self.pending_txns.contains_key(&txn_id)
    }

    /// For how many pending requests there is room before the table has
    /// to grow.
    pub fn pending_capacity(&self) -> usize {
        capacity_of(&self.pending_txns)
    }

    /// How many bytes wait in the buffer.
    pub fn buffered_len(&self) -> (r: usize)
        ensures
            r == self@.buffer.len(),
    {
        self.codec.buffered().len()
    }

    /// The id that the next request gets, if it is free.
    pub fn peek_txn_id(&self) -> (r: u64)
        ensures
            r == self@.next_txn_id,
    {
        self.next_txn_id
    }

    /// The time by which the server has to have answered the Connect
    /// packet.
    pub fn auth_deadline(&self) -> (r: u64)
        ensures
            r == self@.auth_deadline,
    {
        self.auth_deadline
    }

    /// Hands out the current id and moves the counter to the next one.
    pub fn next_txn_id(&mut self) -> (id: u64)
        ensures
            id == old(self)@.next_txn_id,
            final(self)@ == (EngineView { next_txn_id: wrap_add(id, 1), ..old(self)@ }),
    {
        let current = self.next_txn_id;
        self.next_txn_id = next_id(current);
        current
    }

    /// The effect that sends a packet: fails, with no effect, where the
    /// packet cannot be encoded.
    pub fn write_packet_to_transport(packet: &MoonlightPacket, effects: &mut Vec<Effect<R>>) -> (r:
        Result<(), crate::codec::CodecError>)
        ensures
            match r {
                Ok(()) => packet@.wf() && effects_view(final(effects)@) == effects_view(
                    old(effects)@,
                ) + seq![EffectView::<R>::Write(encode_spec(packet@))],
                Err(e) => !packet@.wf() && e == crate::codec::CodecError::InvalidPacket
                    && final(effects)@ == old(effects)@,
            },
    {
        match Codec::encode(packet) {
            Ok(bytes) => {
                emit(effects, Effect::Write(bytes));
                Ok(())
            },
            Err(e) => Err(e),
        }
    }

    /// Sends a frame, or ends the session where it cannot be encoded.
    fn send_packet(&self, packet: MoonlightPacket, effects: &mut Vec<Effect<R>>) -> (outcome: Option<
        DisconnectedReason,
    >)
        ensures
            effects_view(final(effects)@) == effects_view(old(effects)@) + send(
                self@,
                packet@,
            ).effects,
            outcome == send(self@, packet@).outcome,
    {
        match Self::write_packet_to_transport(&packet, effects) {
            Ok(()) => None,
            Err(_) => {
                assert(effects_view(effects@) =~= effects_view(old(effects)@) + Seq::<
                    EffectView<R>,
                >::empty());
                Some(DisconnectedReason::ForceCloseSocket)
            },
        }
    }

    /// Starts the authentication: the deadline is set and the Connect
    /// packet is to be written.
    pub fn begin_authentication(&mut self, now: u64) -> (effect: Effect<R>)
        ensures
            effect@ == EffectView::<R>::Write(old(self)@.connect_bytes),
            final(self)@ == (EngineView {
                auth_deadline: if now + AUTH_TIMEOUT_MS > u64::MAX {
                    u64::MAX
                } else {
                    (now + AUTH_TIMEOUT_MS) as u64
                },
                ..old(self)@
            }),
    {
        self.auth_deadline = if now > u64::MAX - AUTH_TIMEOUT_MS {
            u64::MAX
        } else {
            now + AUTH_TIMEOUT_MS
        };
        Effect::Write(vstd::slice::slice_to_vec(self.connect_packet_bytes.as_slice()))
    }

    /// Completes the request with this id, if it is pending.
    pub fn resolve_txn(
        &mut self,
        txn_id: u64,
        value: ReturnChanResult,
        effects: &mut Vec<Effect<R>>,
    )
        ensures
            final(self)@ == resolve(old(self)@, txn_id, value@).state,
            effects_view(final(effects)@) == effects_view(old(effects)@) + resolve(
                old(self)@,
                txn_id,
                value@,
            ).effects,
    {
        match self.pending_txns.remove(&txn_id) {
            Some(p) => {
                emit(effects, Effect::Reply(p.reply, value));
            },
            None => {
                assert(self.pending_txns@ =~= old(self).pending_txns@);
                assert(effects_view(effects@) =~= effects_view(old(effects)@) + Seq::<
                    EffectView<R>,
                >::empty());
            },
        }
    }

    /// Records a request under a fresh id, or hands the caller's handle
    /// back where the next four ids are all taken.
    fn push_txn(&mut self, reply: R, now: u64) -> (r: Result<u64, R>)
        ensures
            final(self)@ == allocate(old(self)@, now, reply).0,
            match r {
                Ok(txn_id) => allocate(old(self)@, now, reply).1 == Some(txn_id),
                Err(back) => allocate(old(self)@, now, reply).1 is None && back == reply,
            },
    {
        let first = self.next_txn_id;
        let mut k: u8 = 0;
        let mut id = first;
        while k < 4
            invariant
                k <= 4,
                self@ == old(self)@,
                first == self@.next_txn_id,
                id == wrap_add(first, k as int),
                taken_ahead(self@.pending, first, 0) == taken_ahead(self@.pending, first, k as int),
            ensures
                k <= 4,
                self@ == old(self)@,
                first == self@.next_txn_id,
                id == wrap_add(first, k as int),
                taken_ahead(self@.pending, first, 0) == k,
                k < 4 ==> !self@.pending.contains_key(id),
            decreases 4 - k,
        {
            if !self.pending_txns.contains_key(&id) {
                break ;
            }
            id = next_id(id);
            k = k + 1;
        }
        if k == 4 {
            self.next_txn_id = id;
            Err(reply)
        } else {
            self.pending_txns.insert(id, Pending { created_at: now, reply });
            self.next_txn_id = next_id(id);
            Ok(id)
        }
    }

    /// Handles a command: see [`on_cmd`].
    pub fn handle_cmd(&mut self, cmd: ClientCmd<R>, now: u64, effects: &mut Vec<Effect<R>>) -> (outcome:
        Option<DisconnectedReason>)
        ensures
            final(self)@ == on_cmd(old(self)@, cmd, now).state,
            effects_view(final(effects)@) == effects_view(old(effects)@) + on_cmd(
                old(self)@,
                cmd,
                now,
            ).effects,
            outcome == on_cmd(old(self)@, cmd, now).outcome,
    {
        match cmd {
            ClientCmd::SendPulse(pulse_type, name, payload, reply) => {
                if name.as_str().as_bytes().len() > 255 {
                    emit(
                        effects,
                        Effect::Reply(
                            reply,
                            ReturnChanResult::Error(
                                owned("invalid_name: Pulse Name needs to be under 255 characters."),
                            ),
                        ),
                    );
                    return None;
                }
                let text = match payload {
                    Some(text) => text,
                    None => String::new(),
                };
                assert(encode_utf8(Seq::<char>::empty()) =~= Seq::<u8>::empty());
                assert(match opt_text(payload) {
                    Some(t) => encode_utf8(t),
                    None => Seq::<u8>::empty(),
                } == encode_utf8(text@));
                match self.push_txn(reply, now) {
                    Err(back) => {
                        emit(
                            effects,
                            Effect::Reply(
                                back,
                                ReturnChanResult::Error(owned("txn_failed: Transaction ID Exhaustion")),
                            ),
                        );
                        Some(DisconnectedReason::ForceCloseSocket)
                    },
                    Ok(txn_id) => {
                        let packet = MoonlightPacket::pulse(pulse_type, txn_id, name, text);
                        self.send_packet(packet, effects)
                    },
                }
            },
            ClientCmd::MailboxNext(header_only, reply) => {
                match self.push_txn(reply, now) {
                    Err(back) => {
                        emit(
                            effects,
                            Effect::Reply(
                                back,
                                ReturnChanResult::Error(owned("txn_failed: Transaction ID Exhaustion")),
                            ),
                        );
                        Some(DisconnectedReason::ForceCloseSocket)
                    },
                    Ok(txn_id) => {
                        let packet = MoonlightPacket::mailbox_next(header_only, txn_id);
                        self.send_packet(packet, effects)
                    },
                }
            },
            ClientCmd::MailOp(ack_type, pulse_id, reply) => {
                if self.pending_txns.contains_key(&pulse_id) {
                    emit(
                        effects,
                        Effect::Reply(
                            reply,
                            ReturnChanResult::Error(GeneralErrors::DuplicateReq.to_string()),
                        ),
                    );
                    None
                } else {
                    self.pending_txns.insert(pulse_id, Pending { created_at: now, reply });
                    let packet = MoonlightPacket::ack_mail(pulse_id, ack_type);
                    self.send_packet(packet, effects)
                }
            },
        }
    }

    /// Handles a response of the server: see [`apply_resp`].
    pub fn handle_server_resp(&mut self, resp: ServerResp, effects: &mut Vec<Effect<R>>) -> (outcome:
        Option<DisconnectedReason>)
        ensures
            final(self)@ == apply_resp(old(self)@, resp@).state,
            effects_view(final(effects)@) == effects_view(old(effects)@) + apply_resp(
                old(self)@,
                resp@,
            ).effects,
            outcome == apply_resp(old(self)@, resp@).outcome,
    {
        let ghost none = Seq::<EffectView<R>>::empty();
        assert(effects_view(effects@) =~= effects_view(effects@) + none);
        match resp {
            ServerResp::ForceCloseSocket => Some(DisconnectedReason::ForceCloseSocket),
            ServerResp::Disconnected(reason) => Some(reason),
            ServerResp::Connected(_) => Some(DisconnectedReason::ForceCloseSocket),
            ServerResp::HeartbeatAck => {
                emit(effects, Effect::Ping);
                None
            },
            ServerResp::NewMail => {
                emit(effects, Effect::Notify(owned("new_mail"), owned("")));
                None
            },
            ServerResp::PulseResp(result) => {
                match result {
                    Ok(txn_id) => {
                        self.resolve_txn(txn_id, ReturnChanResult::Success, effects);
                    },
                    Err((txn_id, reason)) => {
                        self.resolve_txn(
                            txn_id,
                            ReturnChanResult::Error(reason.to_string()),
                            effects,
                        );
                    },
                }
                None
            },
            ServerResp::AckMailResp(result) => {
                match result {
                    Ok((pulse_id, more)) => {
                        self.resolve_txn(pulse_id, ReturnChanResult::MailAckSuccessful(more), effects);
                    },
                    Err((pulse_id, ack_type)) => {
                        let error = GeneralErrors::AckMailFailed { pulse_id, ack_type };
                        self.resolve_txn(
                            pulse_id,
                            ReturnChanResult::Error(error.to_string()),
                            effects,
                        );
                    },
                }
                None
            },
            ServerResp::MailboxNext(result) => {
                match result {
                    Ok((txn_id, mail)) => {
                        self.resolve_txn(txn_id, ReturnChanResult::Mail(mail), effects);
                    },
                    Err(txn_id) => {
                        self.resolve_txn(
                            txn_id,
                            ReturnChanResult::Error(owned("failed: Failed to fetch next mail")),
                            effects,
                        );
                    },
                }
                None
            },
        }
    }

    /// Handles the packets that were read off the buffer, in order, up to
    /// the one that ends the session: see [`apply_frames`].
    fn handle_packets(&mut self, packets: Vec<MoonlightPacket>, effects: &mut Vec<Effect<R>>) -> (outcome:
        Option<DisconnectedReason>)
        ensures
            final(self)@ == apply_frames(old(self)@, frames_of(packets@)).state,
            effects_view(final(effects)@) == effects_view(old(effects)@) + apply_frames(
                old(self)@,
                frames_of(packets@),
            ).effects,
            outcome == apply_frames(old(self)@, frames_of(packets@)).outcome,
    {
        let mut queue = packets;
        let ghost all = frames_of(packets@);
        let ghost start = self@;
        let ghost before = effects_view(effects@);
        assert(before + apply_frames(start, all).effects =~= effects_view(effects@) + apply_frames(
            self@,
            frames_of(queue@),
        ).effects);
        while queue.len() > 0
            invariant
                start == old(self)@,
                all == frames_of(packets@),
                before == effects_view(old(effects)@),
                apply_frames(start, all).state == apply_frames(self@, frames_of(queue@)).state,
                apply_frames(start, all).outcome == apply_frames(self@, frames_of(queue@)).outcome,
                before + apply_frames(start, all).effects == effects_view(effects@) + apply_frames(
                    self@,
                    frames_of(queue@),
                ).effects,
            decreases queue.len(),
        {
            let ghost frames = frames_of(queue@);
            let ghost state = self@;
            let ghost sofar = effects_view(effects@);
            let packet = queue.remove(0);
            assert(frames_of(queue@) =~= frames.drop_first());
            assert(frames[0] == packet@);
            let resp = ServerResp::handle_packet(packet);
            let outcome = self.handle_server_resp(resp, effects);
            let ghost first = apply_resp(state, handle_frame(frames[0]));
            if outcome.is_some() {
                assert(apply_frames(state, frames) == first);
                return outcome;
            }
            proof {
                let others = apply_frames(first.state, frames.drop_first());
                assert(sofar + (first.effects + others.effects) =~= (sofar + first.effects)
                    + others.effects);
            }
        }
        assert(frames_of(queue@) =~= Seq::<Frame>::empty());
        assert(effects_view(effects@) + Seq::<EffectView<R>>::empty() =~= effects_view(effects@));
        None
    }

    /// Handles the sweep: see [`on_refresh`]. The callers of the requests
    /// that have timed out are told in some order, each once.
    pub fn refresh(&mut self, now: u64, effects: &mut Vec<Effect<R>>)
        ensures
            exists|order: Seq<u64>| #[trigger]
                lists_expired(order, old(self)@.pending, now) && final(self)@ == on_refresh(
                    old(self)@,
                    now,
                    order,
                ).state && effects_view(final(effects)@) == effects_view(old(effects)@)
                    + on_refresh(old(self)@, now, order).effects,
    {
        let ghost table = self.pending_txns@;
        let mut gone = take_expired(&mut self.pending_txns, now);
        let ghost all = gone@;
        let ghost order = ids_of(all);
        let ghost before = effects_view(effects@);
        let ghost mut done: int = 0;
        assert(effects_view(effects@) =~= before + timeouts(table, order.subrange(0, 0)));
        while gone.len() > 0
            invariant
                0 <= done <= all.len(),
                order == ids_of(all),
                before == effects_view(old(effects)@),
                gone@ =~= all.subrange(done, all.len() as int),
                forall|k: int|
                    0 <= k < all.len() ==> table.contains_key((#[trigger] all[k]).0) && all[k].1
                        == table[all[k].0].reply,
                effects_view(effects@) == before + timeouts(table, order.subrange(0, done)),
            decreases gone.len(),
        {
            let (id, reply) = gone.remove(0);
            proof {
                assert((id, reply) == all[done]);
                assert(order[done] == id);
                assert(timeouts(table, order.subrange(0, done + 1)) =~= timeouts(
                    table,
                    order.subrange(0, done),
                ) + seq![EffectView::Reply(reply, ReplyView::Timeout)]);
                assert((before + timeouts(table, order.subrange(0, done))) + seq![
                    EffectView::Reply(reply, ReplyView::Timeout),
                ] =~= before + timeouts(table, order.subrange(0, done + 1)));
                done = done + 1;
            }
            emit(effects, Effect::Reply(reply, ReturnChanResult::Timeout));
        }
        assert(order.subrange(0, done) =~= order);
        assert(lists_expired(order, old(self)@.pending, now) && self@ == on_refresh(
            old(self)@,
            now,
            order,
        ).state && effects_view(effects@) == effects_view(old(effects)@) + on_refresh(
            old(self)@,
            now,
            order,
        ).effects);
    }

    /// Handles an event of the authenticated session: the effects to carry
    /// out, in order, and the reason for which the session ends, if it
    /// does. See [`on_event`].
    pub fn process_client_event(&mut self, event: ClientEvent<R>, now: u64) -> (r: (
        Vec<Effect<R>>,
        Option<DisconnectedReason>,
    ))
        ensures
            event_done(
                old(self)@,
                event,
                now,
                Step { state: final(self)@, effects: effects_view(r.0@), outcome: r.1 },
            ),
    {
        let mut effects: Vec<Effect<R>> = Vec::new();
        let ghost none = Seq::<EffectView<R>>::empty();
        assert(effects_view(effects@) =~= none);
        let ghost step = on_event(self@, event, now, Seq::empty());
        assert(none + step.effects =~= step.effects);
        let outcome = match event {
            ClientEvent::Refresh => {
                self.refresh(now, &mut effects);
                proof {
                    let order = choose|order: Seq<u64>| #[trigger]
                        lists_expired(order, old(self)@.pending, now) && self@ == on_refresh(
                            old(self)@,
                            now,
                            order,
                        ).state && effects_view(effects@) == none + on_refresh(
                            old(self)@,
                            now,
                            order,
                        ).effects;
                    assert(none + on_refresh(old(self)@, now, order).effects =~= on_refresh(
                        old(self)@,
                        now,
                        order,
                    ).effects);
                }
                None
            },
            ClientEvent::HeartbeatTick => {
                let packet = MoonlightPacket::heartbeat();
                self.send_packet(packet, &mut effects)
            },
            ClientEvent::TransportRecv(bytes) => {
                self.codec.feed(bytes.as_slice());
                match self.codec.process_packets() {
                    Ok(packets) => self.handle_packets(packets, &mut effects),
                    Err(_) => Some(DisconnectedReason::ForceCloseSocket),
                }
            },
            ClientEvent::TransportClose => Some(DisconnectedReason::ForceCloseSocket),
            ClientEvent::Cmd(cmd) => self.handle_cmd(cmd, now, &mut effects),
        };
        (effects, outcome)
    }

    /// Handles an event while the engine waits for the server's answer to
    /// the Connect packet; `None` stands for an event queue that is closed
    /// or has stayed empty until the deadline. See [`on_auth_event`].
    pub fn wait_for_authentication(&mut self, event: Option<ClientEvent<R>>, now: u64) -> (r: (
        Vec<Effect<R>>,
        AuthOutcome,
    ))
        ensures
            final(self)@ == on_auth_event(old(self)@, event, now).state,
            effects_view(r.0@) == on_auth_event(old(self)@, event, now).effects,
            r.1 == on_auth_event(old(self)@, event, now).outcome,
    {
        let mut effects: Vec<Effect<R>> = Vec::new();
        let ghost none = Seq::<EffectView<R>>::empty();
        assert(effects_view(effects@) =~= none);
        let bytes = match event {
            Some(ClientEvent::TransportRecv(bytes)) => bytes,
            _ => {
                return (effects, AuthOutcome::Failed(DisconnectedReason::ForceCloseSocket));
            },
        };
        if now >= self.auth_deadline {
            return (effects, AuthOutcome::Failed(DisconnectedReason::ForceCloseSocket));
        }
        self.codec.feed(bytes.as_slice());
        let mut packets = match self.codec.process_packets() {
            Ok(packets) => packets,
            Err(_) => {
                return (effects, AuthOutcome::Failed(DisconnectedReason::ForceCloseSocket));
            },
        };
        if packets.len() == 0 {
            return (effects, AuthOutcome::Waiting);
        }
        let ghost frames = frames_of(packets@);
        let first = packets.remove(0);
        assert(frames_of(packets@) =~= frames.drop_first());
        assert(frames[0] == first@);
        match ServerResp::handle_packet(first) {
            ServerResp::Connected(mail_available) => {
                self.authenticated = true;
                emit(&mut effects, Effect::Notify(owned("connected"), owned("")));
                if mail_available {
                    emit(&mut effects, Effect::Notify(owned("new_mail"), owned("")));
                }
                let ghost hello = effects_view(effects@);
                assert(hello =~= if mail_available {
                    seq![
                        EffectView::<R>::Notify("connected"@, ""@),
                        EffectView::<R>::Notify("new_mail"@, ""@),
                    ]
                } else {
                    seq![EffectView::<R>::Notify("connected"@, ""@)]
                });
                match self.handle_packets(packets, &mut effects) {
                    Some(reason) => (effects, AuthOutcome::Failed(reason)),
                    None => (effects, AuthOutcome::Authenticated),
                }
            },
            ServerResp::Disconnected(DisconnectedReason::Unauthorized(reason)) => (
                effects,
                AuthOutcome::Failed(DisconnectedReason::Unauthorized(reason)),
            ),
            ServerResp::Disconnected(DisconnectedReason::ConnectFailed(reason)) => (
                effects,
                AuthOutcome::Failed(DisconnectedReason::ConnectFailed(reason)),
            ),
            _ => (effects, AuthOutcome::Failed(DisconnectedReason::ForceCloseSocket)),
        }
    }
}

} // verus!
