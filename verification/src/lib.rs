//! A verified message relay: clients submit opaque encrypted message blobs,
//! which are durably recorded in an append-only log and fanned out live to
//! every currently-connected subscriber through a bounded broadcast hub.
//!
//! The relay core is organised leaf-first:
//! - [`models`]: the plain data carried across the relay's interfaces.
//! - [`codec`]: the wire encoding of messages, with a proved round trip.
//! - [`store`]: the durable log, a sled-backed key/value store.
//! - [`hub`]: the in-memory broadcast hub with bounded per-consumer queues
//!   and an explicit overflow (lag) signal.
//! - [`wire`]: serialization of live-stream frames.
//! - [`relay`]: the relay service tying submission and subscription together.

pub mod codec;
pub mod hub;
pub mod models;
pub mod relay;
pub mod store;
pub mod wire;
