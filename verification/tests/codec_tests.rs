use message_relay::codec::{decode_message, encode_message};
use message_relay::models::MessagePayload;

fn payload(
    blob: &str,
    nonce: &str,
    sender: &str,
    group: Option<&str>,
    recipient: Option<&str>,
) -> MessagePayload {
    MessagePayload {
        encrypted_blob: blob.to_string(),
        nonce: nonce.to_string(),
        sender_id: sender.to_string(),
        group_id: group.map(|s| s.to_string()),
        recipient_id: recipient.map(|s| s.to_string()),
    }
}

fn assert_same(a: &MessagePayload, b: &MessagePayload) {
    assert_eq!(a.encrypted_blob, b.encrypted_blob);
    assert_eq!(a.nonce, b.nonce);
    assert_eq!(a.sender_id, b.sender_id);
    assert_eq!(a.group_id, b.group_id);
    assert_eq!(a.recipient_id, b.recipient_id);
}

#[test]
fn encode_exact_form() {
    let p = payload("QQ==", "Zm9v", "u1", None, None);
    assert_eq!(
        encode_message(&p),
        "{\"encrypted_blob\":\"QQ==\",\"nonce\":\"Zm9v\",\"sender_id\":\"u1\",\"group_id\":null,\"recipient_id\":null}"
    );
}

#[test]
fn encode_exact_form_with_options() {
    let p = payload("AA==", "bb", "alice", Some("g7"), Some("bob"));
    assert_eq!(
        encode_message(&p),
        "{\"encrypted_blob\":\"AA==\",\"nonce\":\"bb\",\"sender_id\":\"alice\",\"group_id\":\"g7\",\"recipient_id\":\"bob\"}"
    );
}

#[test]
fn encode_escapes_quotes_and_backslashes() {
    let p = payload("a\"b", "c\\d", "e\\\"f", None, None);
    assert_eq!(
        encode_message(&p),
        "{\"encrypted_blob\":\"a\\\"b\",\"nonce\":\"c\\\\d\",\"sender_id\":\"e\\\\\\\"f\",\"group_id\":null,\"recipient_id\":null}"
    );
}

#[test]
fn round_trip_plain() {
    let p = payload("QQ==", "Zm9v", "u1", None, None);
    let decoded = decode_message(&encode_message(&p)).expect("round trip");
    assert_same(&p, &decoded);
}

#[test]
fn round_trip_with_options_and_escapes() {
    let p = payload("pay\\load\"", "\"\"", "sender\\", Some("group \"one\""), Some("r\\2"));
    let decoded = decode_message(&encode_message(&p)).expect("round trip");
    assert_same(&p, &decoded);
}

#[test]
fn round_trip_empty_fields() {
    let p = payload("", "", "", Some(""), None);
    let decoded = decode_message(&encode_message(&p)).expect("round trip");
    assert_same(&p, &decoded);
}

#[test]
fn encoded_form_is_json_readable() {
    let p = payload("QQ==", "Zm9v", "u\"1\\", Some("g"), None);
    let text = encode_message(&p);
    let v: serde_json::Value = serde_json::from_str(&text).expect("valid json");
    assert_eq!(v.get("encrypted_blob").and_then(|x| x.as_str()), Some("QQ=="));
    assert_eq!(v.get("nonce").and_then(|x| x.as_str()), Some("Zm9v"));
    assert_eq!(v.get("sender_id").and_then(|x| x.as_str()), Some("u\"1\\"));
    assert_eq!(v.get("group_id").and_then(|x| x.as_str()), Some("g"));
    assert!(v.get("recipient_id").map(|x| x.is_null()).unwrap_or(false));
}

#[test]
fn decode_rejects_malformed_records() {
    assert!(decode_message("").is_none());
    assert!(decode_message("{}").is_none());
    assert!(decode_message("{\"encrypted_blob\":\"x\"}").is_none());
    assert!(decode_message("not json at all").is_none());
    let good = "{\"encrypted_blob\":\"a\",\"nonce\":\"b\",\"sender_id\":\"c\",\"group_id\":null,\"recipient_id\":null}";
    assert!(decode_message(good).is_some());
    let mut trailing = good.to_string();
    trailing.push(' ');
    assert!(decode_message(&trailing).is_none());
    assert!(decode_message(&good[..good.len() - 1]).is_none());
}
