//! The supervisor of the sessions: what the agent knows of its connection
//! between sessions, how long it waits before it connects again, what it
//! tells of its status, and when the timer of a session fires.
//!
//! The host runs the threads, the sleeps and the channels; the decisions
//! are taken here. Times are milliseconds on the host's monotonic clock.

use vstd::prelude::*;
use vstd::string::*;
use crate::client_logic::{ClientCmd, ClientEvent, Effect, EffectView, ReplyView, ReturnChanResult};
use crate::json::{json_string, quote};
use crate::protocol::{ConnectFailedError, DisconnectedReason};
use crate::text::{decimal_of, owned, push_decimal, push_str};

verus! {

/// How long the agent waits after the server has refused it, in
/// milliseconds: five minutes.
pub const UNAUTHORIZED_BACKOFF_MS: u64 = 300_000;

/// The longest wait of the ordinary schedule, in milliseconds.
pub const MAX_BACKOFF_MS: u64 = 30_000;

/// The time between two heartbeats, in milliseconds.
pub const HEARTBEAT_INTERVAL_MS: u64 = 30_000;

/// The time after which an unanswered heartbeat is sent again, in
/// milliseconds.
pub const HEARTBEAT_RETRY_MS: u64 = 5_000;

/// The time without an acknowledged heartbeat after which the link counts
/// as dead, in milliseconds.
pub const HEARTBEAT_DEAD_MS: u64 = 90_000;

/// The time between two sweeps of the pending requests, in milliseconds.
pub const REFRESH_INTERVAL_MS: u64 = 500;

/// Where the agent connects to: the production service, or a server on
/// this machine at the given port.
#[derive(Debug, Clone, Copy, PartialEq, Eq, Structural)]
pub enum ConnectMode {
    Prod,
    Local(u16),
}

/// The wait that follows a wait in the ordinary schedule: one second, two
/// and a half, five, ten, fifteen, thirty, and thirty from then on.
pub open spec fn next_wait(current: u64) -> u64 {
    if current == 0 {
        1_000
    } else if current == 1_000 {
        2_500
    } else if current == 2_500 {
        5_000
    } else if current == 5_000 {
        10_000
    } else if current == 10_000 {
        15_000
    } else {
        30_000
    }
}

/// The wait that is stored for the next failure, after a failure.
pub open spec fn stored_after(stored: Option<u64>, unauthorized: bool) -> Option<u64> {
    if unauthorized {
        Some(UNAUTHORIZED_BACKOFF_MS)
    } else {
        Some(
            next_wait(
                match stored {
                    Some(ms) => ms,
                    None => 0,
                },
            ),
        )
    }
}

/// The wait that is taken now, after a failure: the one that was stored,
/// or none at the first failure; five minutes after a refusal.
pub open spec fn wait_now(stored: Option<u64>, unauthorized: bool) -> u64 {
    if unauthorized {
        UNAUTHORIZED_BACKOFF_MS
    } else {
        match stored {
            Some(ms) => ms,
            None => 0,
        }
    }
}

/// What is stored after `n` failures in a row that are no refusals,
/// starting from a fresh supervisor.
pub open spec fn stored_after_failures(n: nat) -> Option<u64>
    decreases n,
{
    if n == 0 {
        None
    } else {
        stored_after(stored_after_failures((n - 1) as nat), false)
    }
}

/// The ordinary schedule: the wait taken at the failure with this number,
/// counting from zero.
pub open spec fn schedule(n: nat) -> u64 {
    if n == 0 {
        0
    } else if n == 1 {
        1_000
    } else if n == 2 {
        2_500
    } else if n == 3 {
        5_000
    } else if n == 4 {
        10_000
    } else if n == 5 {
        15_000
    } else {
        30_000
    }
}

/// Starting from a fresh supervisor, the waits taken at successive
/// failures that are no refusals are none, 1 s, 2.5 s, 5 s, 10 s, 15 s,
/// 30 s, and 30 s from then on.
pub proof fn lemma_backoff_schedule(n: nat)
    ensures
        wait_now(stored_after_failures(n), false) == schedule(n),
    decreases n,
{
    if n > 0 {
        lemma_backoff_schedule((n - 1) as nat);
        if n > 7 {
            lemma_backoff_schedule((n - 2) as nat);
        }
    }
}

/// One refusal, after any state, makes the wait five minutes: the one
/// taken at the refusal and the one taken at the failure after it.
pub proof fn lemma_backoff_unauthorized(stored: Option<u64>, next_unauthorized: bool)
    ensures
        wait_now(stored, true) == UNAUTHORIZED_BACKOFF_MS,
        wait_now(stored_after(stored, true), next_unauthorized) == UNAUTHORIZED_BACKOFF_MS,
{
}

/// What the supervisor knows, as the contracts speak of it.
pub struct ClientView {
    pub fleet_id: Seq<char>,
    pub device_id: Seq<char>,
    pub device_secret: Seq<char>,
    pub connect_mode: ConnectMode,
    /// Whether the agent has been told to stop.
    pub shutdown: bool,
    /// Whether the current session is authenticated.
    pub authenticated: bool,
    /// Why the last session ended.
    pub disconnected_reason: Option<DisconnectedReason>,
    /// The wait that is stored for the next failure.
    pub reconnect_in: Option<u64>,
    /// Whether a session is there to take commands.
    pub session_open: bool,
}

/// The supervisor's knowledge of the connection.
#[derive(Debug, Clone)]
pub struct MoonlightClient {
    pub fleet_id: String,
    pub device_id: String,
    device_secret: String,
    connect_mode: ConnectMode,
    shutdown_flag: bool,
    authenticated: bool,
    disconnected_reason: Option<DisconnectedReason>,
    reconnect_in: Option<u64>,
    session_open: bool,
}

impl View for MoonlightClient {
    type V = ClientView;

    closed spec fn view(&self) -> ClientView {
        ClientView {
            fleet_id: self.fleet_id@,
            device_id: self.device_id@,
            device_secret: self.device_secret@,
            connect_mode: self.connect_mode,
            shutdown: self.shutdown_flag,
            authenticated: self.authenticated,
            disconnected_reason: self.disconnected_reason,
            reconnect_in: self.reconnect_in,
            session_open: self.session_open,
        }
    }
}

/// The status document: whether the agent is connected and, where it is
/// not and a session has ended, the kind of the error, its message and,
/// after a failed connect, the wait before the next attempt.
pub open spec fn status_text(client: ClientView) -> Seq<char> {
    if client.authenticated {
        "{\"connected\":true}"@
    } else {
        match client.disconnected_reason {
            None => "{\"connected\":false}"@,
            Some(DisconnectedReason::Unauthorized(reason)) => "{\"connected\":false,\"error\":\"unauthorized\",\"msg\":"@
                + json_string(reason.text()) + "}"@,
            Some(DisconnectedReason::ConnectFailed(reason)) => "{\"connected\":false,\"error\":\"connect_failed\",\"msg\":"@
                + json_string(reason.text()) + ",\"reconnecting_in\":"@ + decimal_of(
                match client.reconnect_in {
                    Some(ms) => ms as nat,
                    None => 0,
                },
            ) + "}"@,
            Some(_) => "{\"connected\":false,\"error\":\"connect_failed\",\"msg\":"@
                + json_string(ConnectFailedError::Unknown.text()) + "}"@,
        }
    }
}

/// The data of the notification that a session has ended: the reason's
/// message and the wait before the next attempt.
pub open spec fn disconnected_text(reason: DisconnectedReason, wait_ms: u64) -> Seq<char> {
    "{\"error\":"@ + json_string(reason.text()) + ",\"reconnecting_in_ms\":"@ + decimal_of(
        wait_ms as nat,
    ) + "}"@
}

/// The message for a command that no session could take.
pub open spec fn mailbox_write_failed_text() -> Seq<char> {
    "mailbox write failed"@
}

/// What is to be done with a command.
pub enum SendCmd<R> {
    /// Post this event to the session's queue.
    Post(ClientEvent<R>),
    /// No session is there: carry out this effect, which tells the caller.
    Refuse(Effect<R>),
}

/// The handle on which the caller of a command waits.
pub open spec fn reply_handle<R>(cmd: ClientCmd<R>) -> R {
    match cmd {
        ClientCmd::SendPulse(_, _, _, reply) => reply,
        ClientCmd::MailboxNext(_, reply) => reply,
        ClientCmd::MailOp(_, _, reply) => reply,
    }
}

impl MoonlightClient {
    /// A supervisor that has not connected yet.
    pub fn new(fleet_id: String, device_id: String, device_secret: String, connect_mode: ConnectMode) -> (client:
        MoonlightClient)
        ensures
            client@ == (ClientView {
                fleet_id: fleet_id@,
                device_id: device_id@,
                device_secret: device_secret@,
                connect_mode,
                shutdown: false,
                authenticated: false,
                disconnected_reason: None,
                reconnect_in: None,
                session_open: false,
            }),
    {
        MoonlightClient {
            fleet_id,
            device_id,
            device_secret,
            connect_mode,
            shutdown_flag: false,
            authenticated: false,
            disconnected_reason: None,
            reconnect_in: None,
            session_open: false,
        }
    }

    /// Whether the current session is authenticated.
    pub fn connected(&self) -> (r: bool)
        ensures
            r == self@.authenticated,
    {
        self.authenticated
    }

    /// Whether the agent has been told to stop.
    pub fn shutdown(&self) -> (r: bool)
        ensures
            r == self@.shutdown,
    {
        self.shutdown_flag
    }

    /// Where the agent connects to.
    pub fn connect_mode(&self) -> (r: ConnectMode)
        ensures
            r == self@.connect_mode,
    {
        self.connect_mode
    }

    /// Whether the agent connects to the production service.
    pub fn prod(&self) -> (r: bool)
        ensures
            r == (self@.connect_mode is Prod),
    {
        match self.connect_mode {
            ConnectMode::Prod => true,
            ConnectMode::Local(_) => false,
        }
    }

    /// The device secret.
    pub fn device_secret(&self) -> (r: &str)
        ensures
            r@ == self@.device_secret,
    {
        self.device_secret.as_str()
    }

    /// Why the last session ended.
    pub fn disconnected_reason(&self) -> (r: Option<DisconnectedReason>)
        ensures
            r == self@.disconnected_reason,
    {
        self.disconnected_reason
    }

    /// The wait that is stored for the next failure, in milliseconds.
    pub fn reconnect_in(&self) -> (r: Option<u64>)
        ensures
            r == self@.reconnect_in,
    {
        self.reconnect_in
    }

    /// Whether a session is there to take commands.
    pub fn session_open(&self) -> (r: bool)
        ensures
            r == self@.session_open,
    {
        self.session_open
    }

    /// Puts the supervisor's knowledge of the last session in place, as
    /// when it is restored from what the host has kept.
    pub fn restore(
        &mut self,
        authenticated: bool,
        disconnected_reason: Option<DisconnectedReason>,
        reconnect_in: Option<u64>,
    )
        ensures
            final(self)@ == (ClientView {
                authenticated,
                disconnected_reason,
                reconnect_in,
                ..old(self)@
            }),
    {
        self.authenticated = authenticated;
        self.disconnected_reason = disconnected_reason;
        self.reconnect_in = reconnect_in;
    }

    /// The status document: see [`status_text`].
    pub fn status(&self) -> (s: String)
        ensures
            s@ == status_text(self@),
    {
        if self.authenticated {
            return owned("{\"connected\":true}");
        }
        match self.disconnected_reason {
            None => owned("{\"connected\":false}"),
            Some(DisconnectedReason::Unauthorized(reason)) => {
                let mut s = owned("{\"connected\":false,\"error\":\"unauthorized\",\"msg\":");
                let msg = reason.to_string();
                let quoted = quote(msg.as_str());
                push_str(&mut s, quoted.as_str());
                push_str(&mut s, "}");
                s
            },
            Some(DisconnectedReason::ConnectFailed(reason)) => {
                let reconnect: u64 = match self.reconnect_in {
                    Some(ms) => ms,
                    None => 0,
                };
                let mut s = owned("{\"connected\":false,\"error\":\"connect_failed\",\"msg\":");
                let msg = reason.to_string();
                let quoted = quote(msg.as_str());
                push_str(&mut s, quoted.as_str());
                push_str(&mut s, ",\"reconnecting_in\":");
                push_decimal(&mut s, reconnect);
                push_str(&mut s, "}");
                s
            },
            Some(_) => {
                let mut s = owned("{\"connected\":false,\"error\":\"connect_failed\",\"msg\":");
                let msg = ConnectFailedError::Unknown.to_string();
                let quoted = quote(msg.as_str());
                push_str(&mut s, quoted.as_str());
                push_str(&mut s, "}");
                s
            },
        }
    }

    /// The wait to take now, after a failure, in milliseconds; the wait
    /// for the failure after this one is stored. See [`wait_now`] and
    /// [`stored_after`].
    pub fn backoff(&mut self, unauthorized: bool) -> (wait_ms: u64)
        ensures
            wait_ms == wait_now(old(self)@.reconnect_in, unauthorized),
            final(self)@ == (ClientView {
                reconnect_in: stored_after(old(self)@.reconnect_in, unauthorized),
                ..old(self)@
            }),
    {
        if unauthorized {
            self.reconnect_in = Some(UNAUTHORIZED_BACKOFF_MS);
            return UNAUTHORIZED_BACKOFF_MS;
        }
        let current: u64 = match self.reconnect_in {
            Some(ms) => ms,
            None => 0,
        };
        let next: u64 = if current == 0 {
            1_000
        } else if current == 1_000 {
            2_500
        } else if current == 2_500 {
            5_000
        } else if current == 5_000 {
            10_000
        } else if current == 10_000 {
            15_000
        } else {
            30_000
        };
        self.reconnect_in = Some(next);
        current
    }

    /// Notes that a session has been set up and takes commands.
    pub fn session_started(&mut self)
        ensures
            final(self)@ == (ClientView { session_open: true, ..old(self)@ }),
    {
        self.session_open = true;
    }

    /// Notes that the server has accepted the credentials: the agent is
    /// connected, and the schedule of waits starts afresh.
    pub fn session_authenticated(&mut self)
        ensures
            final(self)@ == (ClientView {
                authenticated: true,
                reconnect_in: None,
                disconnected_reason: None,
                ..old(self)@
            }),
    {
        self.authenticated = true;
        self.reconnect_in = None;
        self.disconnected_reason = None;
    }

    /// Notes that the session has ended for this reason. Returns the wait
    /// before the next session, in milliseconds, and the data of the
    /// `disconnected` notification. A refusal makes the wait five minutes;
    /// every other reason follows the ordinary schedule.
    pub fn session_ended(&mut self, reason: DisconnectedReason) -> (r: (u64, String))
        ensures
            r.0 == wait_now(old(self)@.reconnect_in, reason is Unauthorized),
            r.1@ == disconnected_text(reason, r.0),
            final(self)@ == (ClientView {
                disconnected_reason: Some(reason),
                session_open: false,
                authenticated: false,
                reconnect_in: stored_after(old(self)@.reconnect_in, reason is Unauthorized),
                ..old(self)@
            }),
    {
        self.disconnected_reason = Some(reason);
        self.session_open = false;
        self.authenticated = false;
        let unauthorized = match reason {
            DisconnectedReason::Unauthorized(_) => true,
            _ => false,
        };
        let wait_ms = self.backoff(unauthorized);
        let mut data = owned("{\"error\":");
        let msg = reason.to_string();
        let quoted = quote(msg.as_str());
        push_str(&mut data, quoted.as_str());
        push_str(&mut data, ",\"reconnecting_in_ms\":");
        push_decimal(&mut data, wait_ms);
        push_str(&mut data, "}");
        (wait_ms, data)
    }

    /// Tells the agent to stop. Returns whether a session is there, to
    /// whose queue the host then posts that the transport has closed, so
    /// that the session ends at once.
    pub fn stop(&mut self) -> (post_close: bool)
        ensures
            post_close == old(self)@.session_open,
            final(self)@ == (ClientView { shutdown: true, ..old(self)@ }),
    {
        self.shutdown_flag = true;
        self.session_open
    }

    /// The effect that tells the caller of a command that no session
    /// could take it.
    pub fn mailbox_write_failed<R>(cmd: ClientCmd<R>) -> (effect: Effect<R>)
        ensures
            effect@ == EffectView::Reply(
                reply_handle(cmd),
                ReplyView::Error(mailbox_write_failed_text()),
            ),
    {
        let message = owned("mailbox write failed");
        match cmd {
            ClientCmd::SendPulse(_, _, _, reply) => Effect::Reply(
                reply,
                ReturnChanResult::Error(message),
            ),
            ClientCmd::MailboxNext(_, reply) => Effect::Reply(reply, ReturnChanResult::Error(message)),
            ClientCmd::MailOp(_, _, reply) => Effect::Reply(reply, ReturnChanResult::Error(message)),
        }
    }

    /// What is to be done with a command: it is posted to the session, or,
    /// where no session is there, its caller is told at once, so that no
    /// caller waits on a session that is gone.
    pub fn send_cmd<R>(&self, cmd: ClientCmd<R>) -> (r: SendCmd<R>)
        ensures
            match r {
                SendCmd::Post(event) => self@.session_open && event == ClientEvent::Cmd(cmd),
                SendCmd::Refuse(effect) => !self@.session_open && effect@ == EffectView::Reply(
                    reply_handle(cmd),
                    ReplyView::Error(mailbox_write_failed_text()),
                ),
            },
    {
        if self.session_open {
            SendCmd::Post(ClientEvent::Cmd(cmd))
        } else {
            SendCmd::Refuse(Self::mailbox_write_failed(cmd))
        }
    }
}

/// What the timer of a session remembers: when it last asked for a sweep,
/// when it last asked for a heartbeat, and when a heartbeat was last
/// acknowledged.
#[derive(Debug, Clone, Copy, PartialEq, Eq, Structural)]
pub struct TimerState {
    pub last_refresh_sent: u64,
    pub last_heartbeat_sent: u64,
    pub last_heartbeat_ack: u64,
}

/// What the timer posts to the session's queue.
#[derive(Debug, Clone, Copy, PartialEq, Eq, Structural)]
pub enum TimerPost {
    HeartbeatTick,
    TransportClose,
    Refresh,
}

/// What a tick of the timer yields: the state after it, what is posted,
/// in order, and whether the timer stops.
pub struct Tick {
    pub state: TimerState,
    pub posts: Seq<TimerPost>,
    pub shutdown: bool,
}

/// The time that has passed since `then`; none where `then` lies ahead.
pub open spec fn elapsed(now: u64, then: u64) -> int {
    if now >= then {
        now - then
    } else {
        0
    }
}

/// A tick of the timer.
///
/// An acknowledgement that has been seen makes now the time of the last
/// one. A heartbeat is asked for when the last one was asked for thirty
/// seconds ago or more, or five seconds ago or more without an
/// acknowledgement since. Ninety seconds without an acknowledgement close
/// the transport and stop the timer. A sweep is asked for every half
/// second.
pub open spec fn tick_spec(state: TimerState, now: u64, ack_seen: bool) -> Tick {
    let last_ack = if ack_seen {
        now
    } else {
        state.last_heartbeat_ack
    };
    let due = elapsed(now, state.last_heartbeat_sent) >= HEARTBEAT_INTERVAL_MS;
    let sent_1 = if due {
        now
    } else {
        state.last_heartbeat_sent
    };
    let retry = elapsed(now, sent_1) >= HEARTBEAT_RETRY_MS && sent_1 > last_ack;
    let sent_2 = if retry {
        now
    } else {
        sent_1
    };
    let dead = elapsed(now, last_ack) >= HEARTBEAT_DEAD_MS;
    let sweep = elapsed(now, state.last_refresh_sent) >= REFRESH_INTERVAL_MS;
    Tick {
        state: TimerState {
            last_refresh_sent: if sweep {
                now
            } else {
                state.last_refresh_sent
            },
            last_heartbeat_sent: sent_2,
            last_heartbeat_ack: last_ack,
        },
        posts: (if due {
            seq![TimerPost::HeartbeatTick]
        } else {
            Seq::empty()
        }) + (if retry {
            seq![TimerPost::HeartbeatTick]
        } else {
            Seq::empty()
        }) + (if dead {
            seq![TimerPost::TransportClose]
        } else {
            Seq::empty()
        }) + (if sweep {
            seq![TimerPost::Refresh]
        } else {
            Seq::empty()
        }),
        shutdown: dead,
    }
}

/// With no acknowledgement for ninety seconds the timer declares the link
/// dead: it posts that the transport has closed, and stops.
pub proof fn lemma_timer_declares_dead(state: TimerState, now: u64)
    requires
        elapsed(now, state.last_heartbeat_ack) >= HEARTBEAT_DEAD_MS,
    ensures
        tick_spec(state, now, false).posts.contains(TimerPost::TransportClose),
        tick_spec(state, now, false).shutdown,
{
    let t = tick_spec(state, now, false);
    let due = elapsed(now, state.last_heartbeat_sent) >= HEARTBEAT_INTERVAL_MS;
    let at = t.posts.len() - 1 - (if elapsed(now, state.last_refresh_sent) >= REFRESH_INTERVAL_MS {
        1int
    } else {
        0int
    });
    assert(t.posts[at] == TimerPost::TransportClose);
}

/// While acknowledgements keep arriving in time the timer never declares
/// the link dead: a tick at which an acknowledgement is seen, or at which
/// the last one is less than ninety seconds old, closes nothing.
pub proof fn lemma_timer_stays_alive(state: TimerState, now: u64, ack_seen: bool)
    requires
        ack_seen || elapsed(now, state.last_heartbeat_ack) < HEARTBEAT_DEAD_MS,
    ensures
        !tick_spec(state, now, ack_seen).posts.contains(TimerPost::TransportClose),
        !tick_spec(state, now, ack_seen).shutdown,
{
}

impl TimerState {
    /// The timer of a session that starts now.
    pub fn new(now: u64) -> (state: TimerState)
        ensures
            state == (TimerState {
                last_refresh_sent: now,
                last_heartbeat_sent: now,
                last_heartbeat_ack: now,
            }),
    {
        TimerState { last_refresh_sent: now, last_heartbeat_sent: now, last_heartbeat_ack: now }
    }
}

fn passed(now: u64, then: u64, at_least: u64) -> (r: bool)
    ensures
        r == (elapsed(now, then) >= at_least),
{
    if now >= then {
        now - then >= at_least
    } else {
        at_least == 0
    }
}

impl MoonlightClient {
    /// A tick of the timer: see [`tick_spec`]. Returns what to post to the
    /// session's queue, in order, and whether the timer stops.
    pub fn timer_logic(state: &mut TimerState, now: u64, ack_seen: bool) -> (r: (Vec<TimerPost>, bool))
        ensures
            *final(state) == tick_spec(*old(state), now, ack_seen).state,
            r.0@ == tick_spec(*old(state), now, ack_seen).posts,
            r.1 == tick_spec(*old(state), now, ack_seen).shutdown,
    {
        let mut posts: Vec<TimerPost> = Vec::new();
        let mut shutdown = false;
        let ghost none = Seq::<TimerPost>::empty();
        if ack_seen {
            state.last_heartbeat_ack = now;
        }
        if passed(now, state.last_heartbeat_sent, HEARTBEAT_INTERVAL_MS) {
            posts.push(TimerPost::HeartbeatTick);
            state.last_heartbeat_sent = now;
        }
        let ghost first = posts@;
        if passed(now, state.last_heartbeat_sent, HEARTBEAT_RETRY_MS) && state.last_heartbeat_sent
            > state.last_heartbeat_ack {
            posts.push(TimerPost::HeartbeatTick);
            state.last_heartbeat_sent = now;
        }
        if passed(now, state.last_heartbeat_ack, HEARTBEAT_DEAD_MS) {
            posts.push(TimerPost::TransportClose);
            shutdown = true;
        }
        if passed(now, state.last_refresh_sent, REFRESH_INTERVAL_MS) {
            posts.push(TimerPost::Refresh);
            state.last_refresh_sent = now;
        }
        proof {
            let t = tick_spec(*old(state), now, ack_seen);
            assert(first =~= if elapsed(now, old(state).last_heartbeat_sent) >= HEARTBEAT_INTERVAL_MS {
                seq![TimerPost::HeartbeatTick]
            } else {
                none
            });
            assert(posts@ =~= t.posts);
        }
        (posts, shutdown)
    }
}

} // verus!
