use device_agent::client_logic::{ClientCmd, ClientEvent, Effect, ReturnChanResult};
use device_agent::moonlight_client::{
    ConnectMode, MoonlightClient, SendCmd, TimerPost, TimerState,
};
use device_agent::protocol::{
    ConnectFailedError, DisconnectedReason, MailAckType, PulseType, UnauthorizedError,
};
use rand::distr::{Alphanumeric, SampleString};
use std::sync::mpsc::{channel, Sender};
use std::time::Duration;

type Reply = Sender<ReturnChanResult>;

fn gen_rand_str(length: usize) -> String {
    Alphanumeric
        .sample_string(&mut rand::rng(), length)
        .to_uppercase()
}

fn gen_fleet_id() -> String {
    gen_rand_str(8)
}

fn gen_device_id() -> String {
    gen_rand_str(10)
}

fn gen_device_secret() -> String {
    "FOS-".to_string() + &gen_rand_str(32)
}

fn status(m: &MoonlightClient) -> serde_json::Value {
    serde_json::from_str(&m.status()).unwrap()
}

/// Carries out what the supervisor decides for a command, as the host
/// does when no session takes it.
fn send_cmd(m: &MoonlightClient, cmd: ClientCmd<Reply>) -> Option<ClientEvent<Reply>> {
    match m.send_cmd(cmd) {
        SendCmd::Post(event) => Some(event),
        SendCmd::Refuse(Effect::Reply(reply, value)) => {
            let _ = reply.send(value);
            None
        }
        SendCmd::Refuse(_) => None,
    }
}

#[test]
fn test_moonlight_client_basics() {
    let mut m = MoonlightClient::new(
        gen_fleet_id(),
        gen_device_id(),
        gen_device_secret(),
        ConnectMode::Local(8484),
    );

    assert!(!m.shutdown());
    assert_eq!(m.disconnected_reason(), None);
    assert_eq!(m.reconnect_in(), None);
    assert!(!m.session_open());

    assert!(status(&m)["connected"] == false);

    m.stop();
    assert!(m.shutdown());
    assert!(status(&m)["connected"] == false);

    m.restore(false, Some(DisconnectedReason::ForceCloseSocket), None);
    assert!(status(&m)["connected"] == false);
    assert!(status(&m)["error"] == "connect_failed");
    assert!(status(&m)["msg"]
        .to_string()
        .to_lowercase()
        .contains("unknown"));

    m.restore(
        false,
        Some(DisconnectedReason::ConnectFailed(
            ConnectFailedError::ServiceDegraded,
        )),
        None,
    );
    assert!(status(&m)["connected"] == false);
    assert!(status(&m)["error"] == "connect_failed");
    assert!(status(&m)["msg"]
        .to_string()
        .to_lowercase()
        .contains("degraded"));

    assert_eq!(status(&m)["reconnecting_in"], 0);

    m.restore(
        false,
        m.disconnected_reason(),
        Some(Duration::from_secs(30).as_millis() as u64),
    );
    assert_eq!(status(&m)["reconnecting_in"], 30_000);
    m.restore(false, m.disconnected_reason(), None);

    m.restore(
        false,
        Some(DisconnectedReason::Unauthorized(
            UnauthorizedError::TemporaryBan,
        )),
        None,
    );
    assert!(status(&m)["connected"] == false);
    assert!(status(&m)["error"] == "unauthorized");
    assert!(status(&m)["msg"]
        .to_string()
        .to_lowercase()
        .contains("banned"));

    m.restore(true, None, None);
    assert!(status(&m)["connected"] == true);
}

#[test]
fn test_moonlight_client_send_cmd_failures() {
    let m = MoonlightClient::new(
        gen_fleet_id(),
        gen_device_id(),
        gen_device_secret(),
        ConnectMode::Local(8484),
    );

    let e = ReturnChanResult::Error("mailbox write failed".to_string());

    let (ret_tx, ret_rx) = channel();
    send_cmd(
        &m,
        ClientCmd::SendPulse(
            PulseType::Data,
            "name".to_string(),
            Some("null".to_string()),
            ret_tx,
        ),
    );
    assert_eq!(ret_rx.recv().unwrap(), e);

    let (ret_tx, ret_rx) = channel();
    send_cmd(&m, ClientCmd::MailboxNext(true, ret_tx));
    assert_eq!(ret_rx.recv().unwrap(), e);

    let (ret_tx, ret_rx) = channel();
    send_cmd(&m, ClientCmd::MailOp(MailAckType::Ack, 1, ret_tx));
    assert_eq!(ret_rx.recv().unwrap(), e);
}

fn backoff(m: &mut MoonlightClient, unauthorized: bool) -> Duration {
    Duration::from_millis(m.backoff(unauthorized))
}

fn reconnect_in(m: &MoonlightClient) -> Option<Duration> {
    m.reconnect_in().map(Duration::from_millis)
}

#[test]
fn test_moonlight_client_backoff() {
    let mut m = MoonlightClient::new(
        gen_fleet_id(),
        gen_device_id(),
        gen_device_secret(),
        ConnectMode::Local(8484),
    );

    assert_eq!(backoff(&mut m, false), Duration::from_millis(0));
    assert_eq!(reconnect_in(&m), Some(Duration::from_secs(1)));

    assert_eq!(backoff(&mut m, false), Duration::from_secs(1));
    assert_eq!(reconnect_in(&m), Some(Duration::from_millis(2500)));

    assert_eq!(backoff(&mut m, false), Duration::from_millis(2500));
    assert_eq!(reconnect_in(&m), Some(Duration::from_secs(5)));

    assert_eq!(backoff(&mut m, false), Duration::from_secs(5));
    assert_eq!(reconnect_in(&m), Some(Duration::from_secs(10)));

    assert_eq!(backoff(&mut m, false), Duration::from_secs(10));
    assert_eq!(reconnect_in(&m), Some(Duration::from_secs(15)));

    assert_eq!(backoff(&mut m, false), Duration::from_secs(15));
    assert_eq!(reconnect_in(&m), Some(Duration::from_secs(30)));

    assert_eq!(backoff(&mut m, false), Duration::from_secs(30));
    assert_eq!(reconnect_in(&m), Some(Duration::from_secs(30)));

    assert_eq!(backoff(&mut m, false), Duration::from_secs(30));
    assert_eq!(reconnect_in(&m), Some(Duration::from_secs(30)));

    assert_eq!(backoff(&mut m, false), Duration::from_secs(30));
    assert_eq!(reconnect_in(&m), Some(Duration::from_secs(30)));

    assert_eq!(backoff(&mut m, true), Duration::from_secs(5 * 60));
    assert_eq!(reconnect_in(&m), Some(Duration::from_secs(5 * 60)));
}

const NOW: u64 = 10_000_000;

fn ago(d: Duration) -> u64 {
    NOW - d.as_millis() as u64
}

fn call_timer_logic(
    last_refresh_sent: Option<u64>,
    last_heartbeat_sent: Option<u64>,
    last_heartbeat_ack: Option<u64>,
) -> Vec<TimerPost> {
    let mut state = TimerState {
        last_refresh_sent: last_refresh_sent.unwrap_or(NOW),
        last_heartbeat_sent: last_heartbeat_sent.unwrap_or(NOW),
        last_heartbeat_ack: last_heartbeat_ack.unwrap_or(NOW),
    };
    let (posts, _shutdown) = MoonlightClient::timer_logic(&mut state, NOW, false);
    posts
}

#[test]
fn test_timer_logic_refresh() {
    let mb = call_timer_logic(Some(ago(Duration::from_millis(600))), None, None);
    assert!(matches!(mb.first().unwrap(), TimerPost::Refresh));
}

#[test]
fn test_timer_logic_heartbeat_miss() {
    let mb = call_timer_logic(
        None,
        Some(ago(Duration::from_secs(6))),
        Some(ago(Duration::from_secs(10))),
    );
    assert!(matches!(mb.first().unwrap(), TimerPost::HeartbeatTick));
}

#[test]
fn test_timer_logic_heartbeat_miss_and_close() {
    let mb = call_timer_logic(None, None, Some(ago(Duration::from_secs(95))));
    assert!(matches!(mb.first().unwrap(), TimerPost::TransportClose));
}

#[test]
fn test_timer_logic_heartbeat_tick() {
    let mb = call_timer_logic(None, Some(ago(Duration::from_secs(31))), None);
    assert!(matches!(mb.first().unwrap(), TimerPost::HeartbeatTick));
}

#[test]
fn test_timer_logic_heartbeat_ack_and_tick() {
    let mut state = TimerState::new(NOW);
    let (posts, shutdown) = MoonlightClient::timer_logic(&mut state, NOW, true);
    assert!(posts.is_empty());
    assert!(!shutdown);
}

#[test]
fn test_timer_logic_exact_thresholds() {
    // Thirty seconds after the last heartbeat, to the millisecond.
    let mut state = TimerState {
        last_refresh_sent: NOW,
        last_heartbeat_sent: NOW - 29_999,
        last_heartbeat_ack: NOW - 29_999,
    };
    assert_eq!(
        MoonlightClient::timer_logic(&mut state, NOW, false),
        (vec![], false)
    );
    let mut state = TimerState {
        last_refresh_sent: NOW - 499,
        last_heartbeat_sent: NOW - 30_000,
        last_heartbeat_ack: NOW - 30_000,
    };
    assert_eq!(
        MoonlightClient::timer_logic(&mut state, NOW, false),
        (vec![TimerPost::HeartbeatTick], false)
    );
    assert_eq!(state.last_heartbeat_sent, NOW);
    assert_eq!(state.last_refresh_sent, NOW - 499);

    // A heartbeat that has waited five seconds for its acknowledgement is sent again.
    let mut state = TimerState {
        last_refresh_sent: NOW,
        last_heartbeat_sent: NOW - 5_000,
        last_heartbeat_ack: NOW - 5_001,
    };
    assert_eq!(
        MoonlightClient::timer_logic(&mut state, NOW, false),
        (vec![TimerPost::HeartbeatTick], false)
    );
    // ... but not one that was acknowledged.
    let mut state = TimerState {
        last_refresh_sent: NOW,
        last_heartbeat_sent: NOW - 5_000,
        last_heartbeat_ack: NOW - 4_000,
    };
    assert_eq!(
        MoonlightClient::timer_logic(&mut state, NOW, false),
        (vec![], false)
    );
    // ... nor one whose acknowledgement is seen at this tick.
    let mut state = TimerState {
        last_refresh_sent: NOW,
        last_heartbeat_sent: NOW - 6_000,
        last_heartbeat_ack: NOW - 50_000,
    };
    assert_eq!(
        MoonlightClient::timer_logic(&mut state, NOW, true),
        (vec![], false)
    );
    assert_eq!(state.last_heartbeat_ack, NOW);

    // Ninety seconds without an acknowledgement: everything fires, in order.
    let mut state = TimerState {
        last_refresh_sent: NOW - 500,
        last_heartbeat_sent: NOW - 30_000,
        last_heartbeat_ack: NOW - 90_000,
    };
    assert_eq!(
        MoonlightClient::timer_logic(&mut state, NOW, false),
        (
            vec![
                TimerPost::HeartbeatTick,
                TimerPost::TransportClose,
                TimerPost::Refresh
            ],
            true
        )
    );
    let mut state = TimerState {
        last_refresh_sent: NOW,
        last_heartbeat_sent: NOW,
        last_heartbeat_ack: NOW - 89_999,
    };
    assert_eq!(
        MoonlightClient::timer_logic(&mut state, NOW, false),
        (vec![], false)
    );
}

#[test]
fn test_timer_with_regular_acks_never_closes() {
    let mut state = TimerState::new(0);
    let mut heartbeats = 0;
    let mut now = 0;
    while now < 600_000 {
        now += 100;
        // The server answers each heartbeat within the same tick.
        let (posts, shutdown) = MoonlightClient::timer_logic(&mut state, now, heartbeats > 0);
        heartbeats = posts
            .iter()
            .filter(|p| **p == TimerPost::HeartbeatTick)
            .count();
        assert!(!shutdown);
        assert!(!posts.contains(&TimerPost::TransportClose));
    }

    // Without any acknowledgement the link is declared dead after 90 s.
    let mut state = TimerState::new(0);
    let mut closed_at = None;
    let mut now = 0;
    while closed_at.is_none() && now < 200_000 {
        now += 100;
        let (posts, shutdown) = MoonlightClient::timer_logic(&mut state, now, false);
        if posts.contains(&TimerPost::TransportClose) {
            assert!(shutdown);
            closed_at = Some(now);
        }
    }
    assert_eq!(closed_at, Some(90_000));
}

#[test]
fn test_session_bookkeeping() {
    let mut m = MoonlightClient::new(
        gen_fleet_id(),
        gen_device_id(),
        gen_device_secret(),
        ConnectMode::Prod,
    );
    assert!(m.prod());
    assert_eq!(m.connect_mode(), ConnectMode::Prod);
    assert!(!m.connected());

    m.session_started();
    assert!(m.session_open());
    let (ret_tx, _ret_rx) = channel();
    let posted = send_cmd(&m, ClientCmd::MailboxNext(false, ret_tx));
    assert!(matches!(
        posted,
        Some(ClientEvent::Cmd(ClientCmd::MailboxNext(false, _)))
    ));

    m.session_authenticated();
    assert!(m.connected());
    assert_eq!(m.status(), "{\"connected\":true}");

    let (wait, data) = m.session_ended(DisconnectedReason::NormalDisconnect);
    assert_eq!(wait, 0);
    assert_eq!(
        data,
        "{\"error\":\"disconnect: Disconnected from Server on User Request\",\"reconnecting_in_ms\":0}"
    );
    assert!(!m.connected());
    assert!(!m.session_open());
    assert_eq!(
        m.disconnected_reason(),
        Some(DisconnectedReason::NormalDisconnect)
    );
    assert_eq!(m.reconnect_in(), Some(1_000));

    let (wait, data) = m.session_ended(DisconnectedReason::ConnectFailed(
        ConnectFailedError::ServiceRestarting,
    ));
    assert_eq!(wait, 1_000);
    let parsed: serde_json::Value = serde_json::from_str(&data).unwrap();
    assert_eq!(
        parsed["error"],
        "connect_failed: Fostrom servers are restarting..."
    );
    assert_eq!(parsed["reconnecting_in_ms"], 1000);
    assert_eq!(
        m.status(),
        "{\"connected\":false,\"error\":\"connect_failed\",\"msg\":\"connect_failed: Fostrom servers are restarting...\",\"reconnecting_in\":2500}"
    );

    let (wait, _) = m.session_ended(DisconnectedReason::Unauthorized(
        UnauthorizedError::InvalidCredentials,
    ));
    assert_eq!(wait, 300_000);
    assert_eq!(m.reconnect_in(), Some(300_000));
    // The failure after a refusal still waits five minutes, then the schedule goes on at its end.
    let (wait, _) = m.session_ended(DisconnectedReason::ForceCloseSocket);
    assert_eq!(wait, 300_000);
    assert_eq!(m.reconnect_in(), Some(30_000));

    // Success starts the schedule afresh.
    m.session_started();
    m.session_authenticated();
    assert_eq!(m.reconnect_in(), None);
    assert_eq!(m.disconnected_reason(), None);
    let (wait, _) = m.session_ended(DisconnectedReason::ForceCloseSocket);
    assert_eq!(wait, 0);

    assert!(!m.stop());
    m.session_started();
    assert!(m.stop());
    assert!(m.shutdown());
}
