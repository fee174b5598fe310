//! A small framework for nodes of a simulated distributed cluster, together
//! with three workloads built on it: echo, unique-id generation, and
//! eventually-consistent broadcast via periodic gossip.
//!
//! The library holds the verified core: the message model, the node state
//! (identity, send-id counter, outbox), per-workload event dispatch, and the
//! broadcast replication state. Line framing, JSON encoding and the threads
//! that feed the event loop live outside the library.

pub mod broadcast;
pub mod echo;
pub mod message;
pub mod node;
pub mod topology;
pub mod unique_id;
pub mod value;
