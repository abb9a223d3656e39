//! Plain data types carried across the relay's interfaces.
//!
//! The relay core only ever reads `MessagePayload` and `MessageEvent`; the
//! account and key-directory types are the data model of the surrounding
//! collaborators, which consume them as opaque records.

use vstd::prelude::*;

verus! {

/// A submitted message: opaque encrypted bytes (text-encoded) plus routing
/// hints. The relay never inspects the blob or the nonce.
pub struct MessagePayload {
    pub encrypted_blob: String,
    pub nonce: String,
    pub sender_id: String,
    pub group_id: Option<String>,
    pub recipient_id: Option<String>,
}

/// An event delivered over the live stream: a fixed discriminator, the
/// payload, and the submission timestamp assigned by the relay.
pub struct MessageEvent {
    pub event_type: String,
    pub payload: MessagePayload,
    pub timestamp: i64,
}

/// The mathematical value of a `MessagePayload`: each field as a character
/// sequence.
pub struct PayloadView {
    pub encrypted_blob: Seq<char>,
    pub nonce: Seq<char>,
    pub sender_id: Seq<char>,
    pub group_id: Option<Seq<char>>,
    pub recipient_id: Option<Seq<char>>,
}

/// The mathematical value of a `MessageEvent`.
pub struct EventView {
    pub event_type: Seq<char>,
    pub payload: PayloadView,
    pub timestamp: i64,
}

pub open spec fn opt_view(o: Option<String>) -> Option<Seq<char>> {
    match o {
        Some(s) => Some(s@),
        None => None,
    }
}

impl View for MessagePayload {
    type V = PayloadView;

    open spec fn view(&self) -> PayloadView {
        PayloadView {
            encrypted_blob: self.encrypted_blob@,
            nonce: self.nonce@,
            sender_id: self.sender_id@,
            group_id: opt_view(self.group_id),
            recipient_id: opt_view(self.recipient_id),
        }
    }
}

impl View for MessageEvent {
    type V = EventView;

    open spec fn view(&self) -> EventView {
        EventView {
            event_type: self.event_type@,
            payload: self.payload@,
            timestamp: self.timestamp,
        }
    }
}

impl MessagePayload {
    /// An exact copy; the relay clones a payload when it both stores it and
    /// broadcasts it.
    pub fn duplicate(&self) -> (r: MessagePayload)
        ensures
            r@ == self@,
    {
        MessagePayload {
            encrypted_blob: self.encrypted_blob.clone(),
            nonce: self.nonce.clone(),
            sender_id: self.sender_id.clone(),
            group_id: clone_opt(&self.group_id),
            recipient_id: clone_opt(&self.recipient_id),
        }
    }
}

impl MessageEvent {
    /// An exact copy; the hub hands one copy to each registered consumer.
    pub fn duplicate(&self) -> (r: MessageEvent)
        ensures
            r@ == self@,
    {
        MessageEvent {
            event_type: self.event_type.clone(),
            payload: self.payload.duplicate(),
            timestamp: self.timestamp,
        }
    }
}

fn clone_opt(o: &Option<String>) -> (r: Option<String>)
    ensures
        opt_view(r) == opt_view(*o),
{
    match o {
        Some(s) => Some(s.clone()),
        None => None,
    }
}

/// Errors surfaced by the relay service: a missing or invalid credential, or
/// a failed durable-log append. Overflow is not an error of the service; it
/// is signalled in-band on the affected subscriber's stream.
#[derive(Clone, Copy, PartialEq, Eq, Structural, Debug)]
pub enum RelayError {
    Unauthorized,
    StorageError,
}

/// A new-account request, consumed by the account collaborator.
pub struct RegisterRequest {
    pub email: String,
    pub password: String,
    pub name: String,
}

/// A login request, consumed by the account collaborator.
pub struct LoginRequest {
    pub email: String,
    pub password: String,
}

/// The account collaborator's answer: a bearer credential and the principal
/// it names.
pub struct AuthResponse {
    pub token: String,
    pub user_id: String,
    pub name: String,
}

/// An upload of per-user public key material, consumed by the key directory.
pub struct UserKeyRequest {
    pub public_key: String,
    pub signed_pre_key: Option<String>,
}

/// A key-directory lookup result.
pub struct UserKeyResponse {
    pub user_id: String,
    pub public_key: String,
    pub signed_pre_key: Option<String>,
}

} // verus!
