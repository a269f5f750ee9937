//! Verified core of a client/server entity replication protocol.
//!
//! One authoritative server simulates players and projectiles; each client
//! keeps a local mirror of that state. The crate covers the protocol logic:
//! the binary message codec, the server-side broadcast decisions, the
//! client-side reconciliation (create/update/mark-and-sweep-remove), the
//! mapping tables tying server handles to local mirror handles, and the
//! grounded/jump state machine whose effects travel through the protocol.
//! Transport, rendering and physics stay outside, behind plain-value
//! interfaces.

pub mod animation;
pub mod bytes;
pub mod channels;
pub mod codec;
pub mod mapping;
pub mod messages;
pub mod player;
pub mod reconciler;
pub mod replicator;
pub mod texture;
