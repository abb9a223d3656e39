//! The relay service: the single entry point composing the durable log and
//! the broadcast hub.
//!
//! A submission is validated against the caller's credential, given a fresh
//! id, appended to the durable log, and only then published to the hub; a
//! failed append never produces a phantom broadcast, and a rejected
//! credential performs no side effect at all. A subscription registers a hub
//! consumer that sees exactly the events published after it.

use vstd::prelude::*;
use crate::codec::encode_payload;
use crate::hub::{Hub, ReadOutcome, delivered_rel, has_consumer, index_of, queue_view};
use crate::models::{EventView, MessageEvent, MessagePayload, PayloadView, RelayError};
use crate::store::{DurableLog, kv_size, kv_view, log_key};
use crate::wire::{Frame, encode_event, encode_event_frame, lag_marker, lagged_frame};

verus! {

/// Relies on `uuid::Uuid::new_v4` and its `Display` form: a fresh random
/// identifier, rendered as the 36-character hyphenated form.
#[verifier::external_body]
fn fresh_id() -> (r: String)
    ensures
        r@.len() == 36,
{
    uuid::Uuid::new_v4().to_string()
}

/// Relies on `chrono::Utc::now`: the current time as seconds since the
/// epoch. Nothing is assumed of the clock's value.
#[verifier::external_body]
fn now_ts() -> (r: i64) {
    chrono::Utc::now().timestamp()
}

/// Relies on `jsonwebtoken::decode`: full signature and expiry validation
/// of the credential against the secret, yielding the `sub` claim. The
/// outcome depends on the current time, so nothing is assumed of it.
#[verifier::external_body]
fn check_token(token: &str, secret: &str) -> (r: Option<String>) {
    let key = jsonwebtoken::DecodingKey::from_secret(secret.as_bytes());
    let validation = jsonwebtoken::Validation::default();
    match jsonwebtoken::decode::<serde_json::Value>(token, &key, &validation) {
        Ok(data) => match data.claims.get("sub") {
            Some(sub) => sub.as_str().map(|s| s.to_string()),
            None => None,
        },
        Err(_) => None,
    }
}

/// The event a submission publishes.
pub open spec fn event_view(p: PayloadView, ts: i64) -> EventView {
    EventView { event_type: "new_message"@, payload: p, timestamp: ts }
}

/// The relay service: the durable log, the broadcast hub, and the secret
/// the auth collaborator validates credentials against.
pub struct RelayService {
    pub log: DurableLog,
    pub hub: Hub,
    pub secret: String,
}

impl RelayService {
    pub open spec fn wf(self) -> bool {
        self.hub.wf()
    }

    /// A relay over an already-opened database, with no subscribers yet.
    pub fn new(db: sled::Db, secret: String) -> (r: RelayService)
        ensures
            r.wf(),
            r.log.db == db,
            r.secret == secret,
            r.hub.consumers@.len() == 0,
            r.hub.published@ == Seq::<EventView>::empty(),
            r.hub.next_id == 0,
    {
        RelayService { log: DurableLog::new(db), hub: Hub::new(), secret }
    }

    /// The already-validated submission path: appends the message to the
    /// durable log under the given id and, only once that has succeeded,
    /// publishes it to every registered consumer and returns the id.
    pub fn submit_validated(&mut self, msg: MessagePayload, id: String, ts: i64) -> (r: Result<
        String,
        RelayError,
    >)
        requires
            old(self).wf(),
        ensures
            final(self).wf(),
            final(self).secret == old(self).secret,
            final(self).hub.next_id == old(self).hub.next_id,
            match r {
                Ok(rid) => {
                    &&& rid@ == id@
                    &&& kv_view(final(self).log.db) == kv_view(old(self).log.db).insert(
                        log_key(id@),
                        encode_payload(msg@),
                    )
                    &&& final(self).hub.published@ == old(self).hub.published@.push(
                        event_view(msg@, ts),
                    )
                    &&& final(self).hub.consumers@.len() == old(self).hub.consumers@.len()
                    &&& forall|i: int|
                        0 <= i < old(self).hub.consumers@.len() ==> delivered_rel(
                            old(self).hub.consumers@[i],
                            #[trigger] final(self).hub.consumers@[i],
                            old(self).hub.published@,
                            event_view(msg@, ts),
                        )
                },
                Err(e) => {
                    &&& e == RelayError::StorageError
                    &&& final(self).hub == old(self).hub
                    &&& (kv_view(final(self).log.db) == kv_view(old(self).log.db) || kv_view(
                        final(self).log.db,
                    ) == kv_view(old(self).log.db).insert(log_key(id@), encode_payload(msg@)))
                },
            },
    {
        let ghost m = msg@;
        match self.log.append(id.as_str(), &msg) {
            Ok(()) => {},
            Err(_) => {
                return Err(RelayError::StorageError);
            },
        }
        let evt = MessageEvent {
            event_type: String::from_str("new_message"),
            payload: msg,
            timestamp: ts,
        };
        proof {
            assert(evt@ == event_view(m, ts));
        }
        self.hub.publish(&evt);
        Ok(id)
    }

    /// The full submission path: rejects a missing or invalid credential
    /// with no side effect, otherwise assigns a fresh id and the current
    /// time and hands over to the validated path.
    pub fn submit(&mut self, credential: Option<&str>, msg: MessagePayload) -> (r: Result<
        String,
        RelayError,
    >)
        requires
            old(self).wf(),
        ensures
            final(self).wf(),
            final(self).secret == old(self).secret,
            final(self).hub.next_id == old(self).hub.next_id,
            credential is None ==> r == Err::<String, RelayError>(RelayError::Unauthorized),
            r == Err::<String, RelayError>(RelayError::Unauthorized) ==> *final(self) == *old(self),
            match r {
                Ok(id) => {
                    &&& id@.len() == 36
                    &&& kv_view(final(self).log.db) == kv_view(old(self).log.db).insert(
                        log_key(id@),
                        encode_payload(msg@),
                    )
                    &&& final(self).hub.published@.len() == old(self).hub.published@.len() + 1
                    &&& final(self).hub.published@.last().payload == msg@
                    &&& final(self).hub.published@.last().event_type == "new_message"@
                    &&& final(self).hub.published@.subrange(
                        0,
                        old(self).hub.published@.len() as int,
                    ) == old(self).hub.published@
                    &&& final(self).hub.consumers@.len() == old(self).hub.consumers@.len()
                    &&& forall|i: int|
                        0 <= i < old(self).hub.consumers@.len() ==> delivered_rel(
                            old(self).hub.consumers@[i],
                            #[trigger] final(self).hub.consumers@[i],
                            old(self).hub.published@,
                            final(self).hub.published@.last(),
                        )
                },
                Err(e) => {
                    &&& (e == RelayError::Unauthorized || e == RelayError::StorageError)
                    &&& final(self).hub == old(self).hub
                },
            },
    {
        let token = match credential {
            Some(t) => t,
            None => {
                return Err(RelayError::Unauthorized);
            },
        };
        match check_token(token, self.secret.as_str()) {
            Some(_principal) => {},
            None => {
                return Err(RelayError::Unauthorized);
            },
        }
        let id = fresh_id();
        let ghost m = msg@;
        let r = self.submit_validated(msg, id, now_ts());
        proof {
            if r is Ok {
                assert(final(self).hub.published@.last() == event_view(m, final(self).hub.published@.last().timestamp));
                assert(final(self).hub.published@.subrange(0, old(self).hub.published@.len() as int)
                    =~= old(self).hub.published@);
            }
        }
        r
    }

    /// The subscription path: rejects a missing or invalid credential,
    /// otherwise registers a new hub consumer and returns its handle. The
    /// consumer starts with an empty queue at the current end of the
    /// publish history, so it sees exactly the events published after this
    /// call. The handle space is a machine limit: the counter must not have
    /// been exhausted.
    pub fn subscribe(&mut self, credential: Option<&str>) -> (r: Result<u64, RelayError>)
        requires
            old(self).wf(),
            old(self).hub.next_id < u64::MAX,
        ensures
            final(self).wf(),
            final(self).log == old(self).log,
            final(self).secret == old(self).secret,
            final(self).hub.published == old(self).hub.published,
            credential is None ==> r == Err::<u64, RelayError>(RelayError::Unauthorized),
            r == Err::<u64, RelayError>(RelayError::Unauthorized) ==> *final(self) == *old(self),
            match r {
                Ok(id) => {
                    &&& id == old(self).hub.next_id
                    &&& final(self).hub.next_id == old(self).hub.next_id + 1
                    &&& final(self).hub.consumers@.len() == old(self).hub.consumers@.len() + 1
                    &&& forall|j: int|
                        0 <= j < old(self).hub.consumers@.len() ==> final(self).hub.consumers@[j]
                            == old(self).hub.consumers@[j]
                    &&& final(self).hub.consumers@.last().id == id
                    &&& final(self).hub.consumers@.last().queue@.len() == 0
                    &&& final(self).hub.consumers@.last().lagged == false
                    &&& final(self).hub.consumers@.last().joined@ == old(
                        self,
                    ).hub.published@.len()
                    &&& final(self).hub.consumers@.last().cursor@ == old(
                        self,
                    ).hub.published@.len()
                    &&& final(self).hub.consumers@.last().taken@ == Seq::<int>::empty()
                    &&& has_consumer(final(self).hub.consumers@, id)
                },
                Err(e) => e == RelayError::Unauthorized,
            },
    {
        let token = match credential {
            Some(t) => t,
            None => {
                return Err(RelayError::Unauthorized);
            },
        };
        match check_token(token, self.secret.as_str()) {
            Some(_principal) => {},
            None => {
                return Err(RelayError::Unauthorized);
            },
        }
        Ok(self.hub.subscribe())
    }

    /// Deregisters a subscriber's hub consumer; harmless if already gone.
    pub fn unsubscribe(&mut self, id: u64)
        requires
            old(self).wf(),
        ensures
            final(self).wf(),
            final(self).log == old(self).log,
            final(self).secret == old(self).secret,
            final(self).hub.published == old(self).hub.published,
            final(self).hub.next_id == old(self).hub.next_id,
            !has_consumer(old(self).hub.consumers@, id) ==> *final(self) == *old(self),
            has_consumer(old(self).hub.consumers@, id) ==> final(self).hub.consumers@ == old(
                self,
            ).hub.consumers@.remove(index_of(old(self).hub.consumers@, id)),
            !has_consumer(final(self).hub.consumers@, id),
    {
        self.hub.unsubscribe(id);
    }

    /// One step of a subscription session: reads the subscriber's hub
    /// consumer once and serializes the outcome. An event becomes its
    /// streamed form; dropped events become the lag marker, after which
    /// delivery resumes; an empty queue means nothing to push; an unknown
    /// handle means the session is over.
    pub fn poll_frame(&mut self, id: u64) -> (r: Frame)
        requires
            old(self).wf(),
        ensures
            final(self).wf(),
            final(self).log == old(self).log,
            final(self).secret == old(self).secret,
            final(self).hub.published == old(self).hub.published,
            final(self).hub.next_id == old(self).hub.next_id,
            !has_consumer(old(self).hub.consumers@, id) ==> r is Gone && *final(self) == *old(
                self,
            ),
            has_consumer(old(self).hub.consumers@, id) ==> {
                let i = index_of(old(self).hub.consumers@, id);
                let oc = old(self).hub.consumers@[i];
                let nc = final(self).hub.consumers@[i];
                &&& final(self).hub.consumers@.len() == old(self).hub.consumers@.len()
                &&& forall|j: int|
                    0 <= j < old(self).hub.consumers@.len() && j != i
                        ==> final(self).hub.consumers@[j] == old(self).hub.consumers@[j]
                &&& nc.id == oc.id
                &&& nc.joined == oc.joined
                &&& (oc.lagged ==> (r matches Frame::Data(s) && s@ == lag_marker())
                    && nc.lagged == false && nc.queue == oc.queue && nc.cursor == oc.cursor
                    && nc.taken == oc.taken)
                &&& (!oc.lagged && oc.queue@.len() == 0 ==> r is Quiet && nc == oc)
                &&& (!oc.lagged && oc.queue@.len() > 0 ==> {
                    &&& (r matches Frame::Data(s) && s@ == encode_event(
                        old(self).hub.published@[oc.cursor@],
                    ) && s@ == encode_event(queue_view(oc.queue@)[0]))
                    &&& queue_view(nc.queue@) == queue_view(oc.queue@).skip(1)
                    &&& nc.cursor@ == oc.cursor@ + 1
                    &&& nc.taken@ == oc.taken@.push(oc.cursor@)
                    &&& nc.lagged == oc.lagged
                })
            },
    {
        match self.hub.read(id) {
            ReadOutcome::Event(e) => Frame::Data(encode_event_frame(&e)),
            ReadOutcome::Lagged => Frame::Data(lagged_frame()),
            ReadOutcome::Empty => Frame::Quiet,
            ReadOutcome::NotSubscribed => Frame::Gone,
        }
    }

    /// Point lookup in the durable log by message id.
    pub fn lookup(&self, id: &str) -> (r: Result<Option<MessagePayload>, RelayError>)
        ensures
            match r {
                Ok(Some(p)) => kv_view(self.log.db).contains_key(log_key(id@))
                    && crate::codec::decode_payload(kv_view(self.log.db)[log_key(id@)]) == Some(
                    p@,
                ),
                Ok(None) => !kv_view(self.log.db).contains_key(log_key(id@))
                    || crate::codec::decode_payload(kv_view(self.log.db)[log_key(id@)]) is None,
                Err(e) => e == RelayError::StorageError,
            },
    {
        self.log.lookup(id)
    }

    /// How many entries the durable log holds.
    pub fn log_size(&self) -> (r: usize)
        ensures
            r as nat == kv_size(self.log.db),
    {
        self.log.size()
    }
}

/// A successful submission is durably recorded before it is acknowledged:
/// looking the returned id up in the log's contents after the submit gives
/// back exactly the submitted message.
pub proof fn lemma_submitted_then_stored(
    before: Map<Seq<char>, Seq<char>>,
    id: Seq<char>,
    p: PayloadView,
)
    ensures
        crate::codec::decode_payload(
            before.insert(log_key(id), encode_payload(p))[log_key(id)],
        ) == Some(p),
{
    crate::codec::lemma_decode_encode(p);
}

} // verus!
