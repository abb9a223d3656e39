use message_relay::models::{MessageEvent, MessagePayload};
use message_relay::wire::{encode_event_frame, lagged_frame};

fn event(ts: i64) -> MessageEvent {
    MessageEvent {
        event_type: "new_message".to_string(),
        payload: MessagePayload {
            encrypted_blob: "QQ==".to_string(),
            nonce: "Zm9v".to_string(),
            sender_id: "u1".to_string(),
            group_id: None,
            recipient_id: None,
        },
        timestamp: ts,
    }
}

#[test]
fn event_frame_exact_form() {
    assert_eq!(
        encode_event_frame(&event(1700000000)),
        "{\"event_type\":\"new_message\",\"payload\":{\"encrypted_blob\":\"QQ==\",\"nonce\":\"Zm9v\",\"sender_id\":\"u1\",\"group_id\":null,\"recipient_id\":null},\"timestamp\":1700000000}"
    );
}

#[test]
fn event_frame_timestamp_rendering() {
    let frame0 = encode_event_frame(&event(0));
    assert!(frame0.ends_with("\"timestamp\":0}"));
    let neg = encode_event_frame(&event(-42));
    assert!(neg.ends_with("\"timestamp\":-42}"));
    let min = encode_event_frame(&event(i64::MIN));
    assert!(min.ends_with("\"timestamp\":-9223372036854775808}"));
    let max = encode_event_frame(&event(i64::MAX));
    assert!(max.ends_with("\"timestamp\":9223372036854775807}"));
}

#[test]
fn event_frame_is_json_readable() {
    let v: serde_json::Value =
        serde_json::from_str(&encode_event_frame(&event(123))).expect("valid json");
    assert_eq!(v.get("event_type").and_then(|x| x.as_str()), Some("new_message"));
    assert_eq!(v.get("timestamp").and_then(|x| x.as_i64()), Some(123));
    assert_eq!(
        v.get("payload").and_then(|p| p.get("sender_id")).and_then(|x| x.as_str()),
        Some("u1")
    );
}

#[test]
fn lag_marker_exact_form() {
    assert_eq!(lagged_frame(), "{\"error\": \"lagged\"}");
}
