use message_relay::models::{MessagePayload, RelayError};
use message_relay::relay::RelayService;
use message_relay::wire::Frame;

const SECRET: &str = "test-signing-secret";

fn temp_relay() -> RelayService {
    let db = sled::Config::new().temporary(true).open().expect("temp db");
    RelayService::new(db, SECRET.to_string())
}

fn valid_token() -> String {
    let mut claims = serde_json::Map::new();
    claims.insert(
        "sub".to_string(),
        serde_json::Value::String("u1".to_string()),
    );
    let exp = chrono::Utc::now().timestamp() + 3600;
    claims.insert(
        "exp".to_string(),
        serde_json::Value::Number(serde_json::Number::from(exp)),
    );
    jsonwebtoken::encode(
        &jsonwebtoken::Header::default(),
        &serde_json::Value::Object(claims),
        &jsonwebtoken::EncodingKey::from_secret(SECRET.as_bytes()),
    )
    .expect("token")
}

fn payload(sender: &str) -> MessagePayload {
    MessagePayload {
        encrypted_blob: "QQ==".to_string(),
        nonce: "Zm9v".to_string(),
        sender_id: sender.to_string(),
        group_id: None,
        recipient_id: None,
    }
}

#[test]
fn submit_returns_fresh_id_and_stores_message() {
    let mut relay = temp_relay();
    let token = valid_token();
    let id = relay
        .submit(Some(&token), payload("u1"))
        .expect("submit succeeds");
    assert!(!id.is_empty());
    assert_eq!(id.chars().count(), 36);
    let stored = relay.lookup(&id).expect("lookup ok").expect("present");
    assert_eq!(stored.encrypted_blob, "QQ==");
    assert_eq!(stored.nonce, "Zm9v");
    assert_eq!(stored.sender_id, "u1");
    assert_eq!(stored.group_id, None);
    assert_eq!(stored.recipient_id, None);
}

#[test]
fn submitted_ids_are_unique() {
    let mut relay = temp_relay();
    let token = valid_token();
    let a = relay.submit(Some(&token), payload("u1")).expect("first");
    let b = relay.submit(Some(&token), payload("u1")).expect("second");
    assert_ne!(a, b);
    assert_eq!(relay.log_size(), 2);
}

#[test]
fn submit_without_credential_is_unauthorized_and_has_no_effect() {
    let mut relay = temp_relay();
    let before = relay.log_size();
    let r = relay.submit(None, payload("u1"));
    assert_eq!(r, Err(RelayError::Unauthorized));
    assert_eq!(relay.log_size(), before);
}

#[test]
fn submit_with_invalid_credential_is_unauthorized_and_has_no_effect() {
    let mut relay = temp_relay();
    let token = valid_token();
    let sub = relay.subscribe(Some(&token)).expect("subscribe");
    let before = relay.log_size();
    let r = relay.submit(Some("not-a-jwt"), payload("u1"));
    assert_eq!(r, Err(RelayError::Unauthorized));
    assert_eq!(relay.log_size(), before);
    // No publish happened either: the live subscriber sees nothing.
    assert!(matches!(relay.poll_frame(sub), Frame::Quiet));
}

#[test]
fn submit_with_wrongly_signed_credential_is_unauthorized() {
    let mut relay = temp_relay();
    let mut claims = serde_json::Map::new();
    claims.insert(
        "sub".to_string(),
        serde_json::Value::String("u1".to_string()),
    );
    claims.insert(
        "exp".to_string(),
        serde_json::Value::Number(serde_json::Number::from(
            chrono::Utc::now().timestamp() + 3600,
        )),
    );
    let forged = jsonwebtoken::encode(
        &jsonwebtoken::Header::default(),
        &serde_json::Value::Object(claims),
        &jsonwebtoken::EncodingKey::from_secret(b"some other secret"),
    )
    .expect("token");
    let r = relay.submit(Some(&forged), payload("u1"));
    assert_eq!(r, Err(RelayError::Unauthorized));
    assert_eq!(relay.log_size(), 0);
}

#[test]
fn subscriber_receives_submitted_event() {
    let mut relay = temp_relay();
    let token = valid_token();
    let connected_at = chrono::Utc::now().timestamp();
    let sub = relay.subscribe(Some(&token)).expect("subscribe");
    let id = relay.submit(Some(&token), payload("u1")).expect("submit");
    assert!(!id.is_empty());
    let frame = relay.poll_frame(sub);
    let text = match frame {
        Frame::Data(s) => s,
        _ => panic!("expected a data frame"),
    };
    let v: serde_json::Value = serde_json::from_str(&text).expect("frame is json");
    assert_eq!(v.get("event_type").and_then(|x| x.as_str()), Some("new_message"));
    let p = v.get("payload").expect("payload");
    assert_eq!(p.get("encrypted_blob").and_then(|x| x.as_str()), Some("QQ=="));
    assert_eq!(p.get("nonce").and_then(|x| x.as_str()), Some("Zm9v"));
    assert_eq!(p.get("sender_id").and_then(|x| x.as_str()), Some("u1"));
    let ts = v.get("timestamp").and_then(|x| x.as_i64()).expect("timestamp");
    assert!(ts >= connected_at);
    // Exactly one event.
    assert!(matches!(relay.poll_frame(sub), Frame::Quiet));
}

#[test]
fn late_subscriber_misses_earlier_events() {
    let mut relay = temp_relay();
    let token = valid_token();
    let _m2 = relay.submit(Some(&token), payload("first")).expect("submit");
    let sub = relay.subscribe(Some(&token)).expect("subscribe");
    // Nothing published before the subscription is delivered to it.
    assert!(matches!(relay.poll_frame(sub), Frame::Quiet));
    let _m3 = relay.submit(Some(&token), payload("second")).expect("submit");
    let text = match relay.poll_frame(sub) {
        Frame::Data(s) => s,
        _ => panic!("expected a data frame"),
    };
    let v: serde_json::Value = serde_json::from_str(&text).expect("frame is json");
    let p = v.get("payload").expect("payload");
    assert_eq!(p.get("sender_id").and_then(|x| x.as_str()), Some("second"));
}

#[test]
fn subscribe_without_credential_is_unauthorized() {
    let mut relay = temp_relay();
    assert_eq!(relay.subscribe(None), Err(RelayError::Unauthorized));
    assert_eq!(relay.subscribe(Some("garbage")), Err(RelayError::Unauthorized));
}

#[test]
fn ended_session_polls_as_gone() {
    let mut relay = temp_relay();
    let token = valid_token();
    let sub = relay.subscribe(Some(&token)).expect("subscribe");
    relay.unsubscribe(sub);
    assert!(matches!(relay.poll_frame(sub), Frame::Gone));
}

#[test]
fn lookup_of_unknown_id_is_empty() {
    let relay = temp_relay();
    assert!(relay.lookup("no-such-id").expect("lookup ok").is_none());
}

#[test]
fn overwriting_append_keeps_latest_value() {
    // The log's insert semantics are keyed by id: a second append under the
    // same id replaces the record.
    let db = sled::Config::new().temporary(true).open().expect("temp db");
    let mut log = message_relay::store::DurableLog::new(db);
    log.append("fixed", &payload("one")).expect("append");
    log.append("fixed", &payload("two")).expect("append");
    let got = log.lookup("fixed").expect("ok").expect("present");
    assert_eq!(got.sender_id, "two");
}
