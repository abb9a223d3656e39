use message_relay::hub::{Hub, HUB_CAPACITY, ReadOutcome};
use message_relay::models::{MessageEvent, MessagePayload};

fn event(sender: &str, ts: i64) -> MessageEvent {
    MessageEvent {
        event_type: "new_message".to_string(),
        payload: MessagePayload {
            encrypted_blob: "QQ==".to_string(),
            nonce: "Zm9v".to_string(),
            sender_id: sender.to_string(),
            group_id: None,
            recipient_id: None,
        },
        timestamp: ts,
    }
}

fn next_sender(hub: &mut Hub, id: u64) -> Option<String> {
    match hub.read(id) {
        ReadOutcome::Event(e) => Some(e.payload.sender_id),
        _ => None,
    }
}

#[test]
fn events_arrive_in_publish_order() {
    let mut hub = Hub::new();
    let s = hub.subscribe();
    hub.publish(&event("a", 1));
    hub.publish(&event("b", 2));
    hub.publish(&event("c", 3));
    assert_eq!(next_sender(&mut hub, s).as_deref(), Some("a"));
    assert_eq!(next_sender(&mut hub, s).as_deref(), Some("b"));
    assert_eq!(next_sender(&mut hub, s).as_deref(), Some("c"));
    assert!(matches!(hub.read(s), ReadOutcome::Empty));
}

#[test]
fn no_retroactive_delivery() {
    let mut hub = Hub::new();
    hub.publish(&event("early", 1));
    let s = hub.subscribe();
    assert!(matches!(hub.read(s), ReadOutcome::Empty));
    hub.publish(&event("late", 2));
    assert_eq!(next_sender(&mut hub, s).as_deref(), Some("late"));
}

#[test]
fn overflow_yields_lag_signal_then_resumes() {
    let mut hub = Hub::new();
    let s = hub.subscribe();
    // One more event than the queue holds: the oldest is dropped.
    for k in 0..(HUB_CAPACITY as i64 + 1) {
        hub.publish(&event(&format!("m{}", k), k));
    }
    assert!(matches!(hub.read(s), ReadOutcome::Lagged));
    // Delivery resumes from the oldest event still queued.
    assert_eq!(next_sender(&mut hub, s).as_deref(), Some("m1"));
    assert_eq!(next_sender(&mut hub, s).as_deref(), Some("m2"));
}

#[test]
fn no_lag_signal_at_exactly_capacity() {
    let mut hub = Hub::new();
    let s = hub.subscribe();
    for k in 0..(HUB_CAPACITY as i64) {
        hub.publish(&event(&format!("m{}", k), k));
    }
    assert_eq!(next_sender(&mut hub, s).as_deref(), Some("m0"));
}

#[test]
fn unsubscribe_is_idempotent_and_stops_delivery() {
    let mut hub = Hub::new();
    let s = hub.subscribe();
    hub.publish(&event("a", 1));
    hub.unsubscribe(s);
    hub.unsubscribe(s);
    assert!(matches!(hub.read(s), ReadOutcome::NotSubscribed));
    hub.publish(&event("b", 2));
    assert!(matches!(hub.read(s), ReadOutcome::NotSubscribed));
}

#[test]
fn consumers_are_independent() {
    let mut hub = Hub::new();
    let s1 = hub.subscribe();
    hub.publish(&event("a", 1));
    let s2 = hub.subscribe();
    hub.publish(&event("b", 2));
    assert_eq!(next_sender(&mut hub, s1).as_deref(), Some("a"));
    assert_eq!(next_sender(&mut hub, s1).as_deref(), Some("b"));
    // The late subscriber only sees what was published after it joined.
    assert_eq!(next_sender(&mut hub, s2).as_deref(), Some("b"));
    assert!(matches!(hub.read(s2), ReadOutcome::Empty));
}

#[test]
fn publish_with_no_consumers_is_silent() {
    let mut hub = Hub::new();
    hub.publish(&event("nobody", 1));
    let s = hub.subscribe();
    assert!(matches!(hub.read(s), ReadOutcome::Empty));
}
