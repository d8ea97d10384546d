//! Core of a durable worker execution engine.
//!
//! Long-lived, stateful workers run on a sharded cluster of nodes.  Every
//! effectful host operation a worker performs is recorded in a per-worker
//! append-only journal (the oplog), so that after a crash, an interrupt or a
//! shard reassignment the worker can be replayed from the journal with
//! identical observable behaviour.
//!
//! The modules here hold the engine's decision logic and data model:
//! identifiers and statuses, the shard ownership service, the oplog and its
//! byte codec, the record-or-replay durability envelope, promise
//! coordination, the active-worker cache and the node-level executor that
//! serves the public operations.  All I/O (the RPC transport, the backing
//! stores, the compiled module runtime) stays outside; the engine receives
//! their results as plain values and decides what happens next.

pub mod cache;
pub mod codec;
pub mod durability;
pub mod events;
pub mod executor;
pub mod gateway;
pub mod host;
pub mod keys;
pub mod kv;
pub mod metadata;
pub mod model;
pub mod oplog;
pub mod persist;
pub mod promise;
pub mod runtime;
pub mod shard;
pub mod worker;
