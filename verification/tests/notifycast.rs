use device_agent::notifycast::NotifyCast;
use std::sync::mpsc::{channel, Receiver, Sender};

type Notification = (String, String);

/// Delivers a notification to every listener, as the host does, and takes
/// out those that are gone.
fn broadcast(cast: &mut NotifyCast<Sender<Notification>>, event: &str, data: &str) {
    let mut failed = Vec::new();
    for token in cast.tokens() {
        if let Some(listener) = cast.listener(token) {
            if listener
                .send((event.to_string(), data.to_string()))
                .is_err()
            {
                failed.push(token);
            }
        }
    }
    cast.remove_failed(&failed);
}

fn subscribe(cast: &mut NotifyCast<Sender<Notification>>) -> (u64, Receiver<Notification>) {
    let (tx, rx) = channel();
    (cast.subscribe(tx), rx)
}

fn sorted_tokens(cast: &NotifyCast<Sender<Notification>>) -> Vec<u64> {
    let mut tokens = cast.tokens();
    tokens.sort();
    tokens
}

#[test]
fn test_notifycast_tokens_count_up() {
    let mut cast: NotifyCast<Sender<Notification>> = NotifyCast::new();
    assert_eq!(cast.len(), 0);
    assert!(cast.tokens().is_empty());
    assert_eq!(cast.incr_token(), 0);
    assert_eq!(cast.incr_token(), 1);
    let (token, _rx) = subscribe(&mut cast);
    assert_eq!(token, 2);
    let (token, _rx2) = subscribe(&mut cast);
    assert_eq!(token, 3);
    assert_eq!(cast.len(), 2);
    assert_eq!(sorted_tokens(&cast), vec![2, 3]);
    assert!(cast.listener(2).is_some());
    assert!(cast.listener(4).is_none());
}

#[test]
fn test_notifycast_fan_out_and_unsubscribe() {
    let mut cast: NotifyCast<Sender<Notification>> = NotifyCast::new();
    let (a, rx_a) = subscribe(&mut cast);
    let (b, rx_b) = subscribe(&mut cast);
    let (c, rx_c) = subscribe(&mut cast);
    assert_eq!((a, b, c), (0, 1, 2));

    broadcast(&mut cast, "connected", "");
    for rx in [&rx_a, &rx_b, &rx_c] {
        assert_eq!(
            rx.try_recv().unwrap(),
            ("connected".to_string(), "".to_string())
        );
        assert!(rx.try_recv().is_err());
    }

    cast.unsubscribe(b);
    cast.unsubscribe(77);
    assert_eq!(cast.len(), 2);
    broadcast(&mut cast, "new_mail", "");
    assert!(rx_a.try_recv().is_ok());
    assert!(rx_b.try_recv().is_err());
    assert!(rx_c.try_recv().is_ok());

    // A listener that has gone away is dropped at the next notification.
    drop(rx_a);
    broadcast(&mut cast, "disconnected", "{}");
    assert_eq!(cast.len(), 1);
    assert_eq!(cast.tokens(), vec![c]);
    assert_eq!(
        rx_c.try_recv().unwrap(),
        ("disconnected".to_string(), "{}".to_string())
    );

    cast.remove_failed(&vec![c, c, 5]);
    assert_eq!(cast.len(), 0);
}
