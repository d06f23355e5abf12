//! What the engine makes of whole streams: a burst of frames that comes
//! with the server's `Connected` is handled as one, and bytes that are no
//! frame end the session.

use vstd::prelude::*;
use crate::client_logic::{
    apply_frames,
    apply_resp,
    on_auth_event,
    on_event,
    AuthOutcome,
    ClientEvent,
    EffectView,
    EngineView,
};
use crate::codec::{drain_spec, encode_spec, known_tag, Drained};
use crate::packet::Frame;
use crate::protocol::DisconnectedReason;
use crate::roundtrip::{lemma_unknown_tag_is_malformed, within_cap};
use crate::server_resp::handle_frame;
use crate::stream::{all_readable, encode_all, lemma_drain_encode_all};

verus! {

/// Bytes that begin with a byte that is no tag of the protocol end the
/// authenticated session with a forced close, where the buffer was empty.
pub proof fn lemma_malformed_bytes_force_close<R>(state: EngineView<R>, bytes: Vec<u8>, now: u64)
    requires
        state.buffer.len() == 0,
        bytes@.len() >= 1,
        !known_tag(bytes@[0]),
    ensures
        on_event(state, ClientEvent::TransportRecv(bytes), now, Seq::empty()).outcome == Some(
            DisconnectedReason::ForceCloseSocket,
        ),
        on_event(state, ClientEvent::<R>::TransportRecv(bytes), now, Seq::empty()).effects
            == Seq::<EffectView<R>>::empty(),
{
    assert(state.buffer + bytes@ =~= bytes@);
    lemma_unknown_tag_is_malformed(bytes@);
}

/// `Connected`, an acknowledged heartbeat and the server's close, in one
/// burst during authentication: the session is authenticated, the timer
/// is told of the heartbeat, and the attempt ends with the polite
/// disconnect that the server asked for.
pub proof fn lemma_authentication_prefix<R>(
    state: EngineView<R>,
    bytes: Vec<u8>,
    now: u64,
    mail_available: bool,
    keep_alive: bool,
    successful: bool,
)
    requires
        state.buffer.len() == 0,
        now < state.auth_deadline,
        bytes@ == encode_all(
            seq![
                Frame::Connected { mail_available, keep_alive },
                Frame::HeartbeatAck { successful },
                Frame::CloseConnection { server: true },
            ],
        ),
    ensures
        ({
            let step = on_auth_event(state, Some(ClientEvent::TransportRecv(bytes)), now);
            &&& step.outcome == AuthOutcome::Failed(DisconnectedReason::NormalDisconnect)
            &&& step.state == (EngineView { authenticated: true, ..state })
            &&& step.effects == (if mail_available {
                seq![
                    EffectView::<R>::Notify("connected"@, ""@),
                    EffectView::<R>::Notify("new_mail"@, ""@),
                    EffectView::<R>::Ping,
                ]
            } else {
                seq![EffectView::<R>::Notify("connected"@, ""@), EffectView::<R>::Ping]
            })
        }),
{
    let frames = seq![
        Frame::Connected { mail_available, keep_alive },
        Frame::HeartbeatAck { successful },
        Frame::CloseConnection { server: true },
    ];
    assert(all_readable(frames));
    lemma_drain_encode_all(frames);
    assert(state.buffer + bytes@ =~= bytes@);
    assert(state.buffer =~= Seq::<u8>::empty());
    let fed = EngineView { buffer: Seq::<u8>::empty(), ..state };
    assert(fed == state);
    let open = EngineView { authenticated: true, ..fed };
    let rest = frames.drop_first();
    assert(rest[0] == Frame::HeartbeatAck { successful });
    assert(rest.drop_first()[0] == Frame::CloseConnection { server: true });
    let ack = apply_resp(open, handle_frame(rest[0]));
    let close = apply_resp(ack.state, handle_frame(rest.drop_first()[0]));
    assert(apply_frames(ack.state, rest.drop_first()) == close);
    let others = apply_frames(open, rest);
    assert(others.effects =~= seq![EffectView::<R>::Ping]);
    let step = on_auth_event(state, Some(ClientEvent::TransportRecv(bytes)), now);
    assert(step.effects =~= (if mail_available {
        seq![
            EffectView::<R>::Notify("connected"@, ""@),
            EffectView::<R>::Notify("new_mail"@, ""@),
            EffectView::<R>::Ping,
        ]
    } else {
        seq![EffectView::<R>::Notify("connected"@, ""@), EffectView::<R>::Ping]
    }));
}


/// The first frame decides the authentication. When the server's answer
/// to the Connect packet is one whole frame: `Connected` authenticates
/// the session; a refusal and a failed connect fail with their reason;
/// every other frame, the server's close among them, fails with a forced
/// close. Where the attempt fails, nothing is notified and the session
/// stays as it was.
pub proof fn lemma_first_frame_decides<R>(state: EngineView<R>, bytes: Vec<u8>, now: u64, f: Frame)
    requires
        state.buffer.len() == 0,
        now < state.auth_deadline,
        f.wf(),
        within_cap(f),
        bytes@ == encode_spec(f),
    ensures
        ({
            let step = on_auth_event(state, Some(ClientEvent::TransportRecv(bytes)), now);
            &&& f is Connected ==> step.outcome == AuthOutcome::Authenticated
                && step.state.authenticated
            &&& f matches Frame::Unauthorized { reason } ==> step.outcome == AuthOutcome::Failed(
                DisconnectedReason::Unauthorized(reason),
            )
            &&& f matches Frame::ConnectFailed { reason } ==> step.outcome == AuthOutcome::Failed(
                DisconnectedReason::ConnectFailed(reason),
            )
            &&& !(f is Connected) && !(f is Unauthorized) && !(f is ConnectFailed) ==> step.outcome
                == AuthOutcome::Failed(DisconnectedReason::ForceCloseSocket)
            &&& !(f is Connected) ==> step.effects == Seq::<EffectView<R>>::empty() && step.state
                == state
        }),
{
    let frames = seq![f];
    assert(all_readable(frames));
    assert(frames.drop_first() =~= Seq::<Frame>::empty());
    assert(encode_all(frames.drop_first()) =~= Seq::<u8>::empty());
    assert(encode_all(frames) =~= encode_spec(f));
    lemma_drain_encode_all(frames);
    assert(state.buffer + bytes@ =~= bytes@);
    assert(state.buffer =~= Seq::<u8>::empty());
    let fed = EngineView { buffer: Seq::<u8>::empty(), ..state };
    assert(fed == state);
    if f is Connected {
        let open = EngineView { authenticated: true, ..fed };
        assert(apply_frames(open, frames.drop_first()).outcome is None);
    }
}

/// Only bytes from the server, and only before the deadline, can move the
/// authentication on: every other event, a queue that is closed or has
/// stayed silent, and an event at or after the deadline fail with a
/// forced close, notify nothing and leave the session as it was.
pub proof fn lemma_authentication_needs_bytes_in_time<R>(
    state: EngineView<R>,
    event: Option<ClientEvent<R>>,
    now: u64,
)
    requires
        !(event matches Some(ClientEvent::TransportRecv(_))) || now >= state.auth_deadline,
    ensures
        on_auth_event(state, event, now).outcome == AuthOutcome::Failed(
            DisconnectedReason::ForceCloseSocket,
        ),
        on_auth_event(state, event, now).effects == Seq::<EffectView<R>>::empty(),
        on_auth_event(state, event, now).state == state,
{
}

} // verus!
