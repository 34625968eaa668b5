//! Single-value Synod (Paxos) consensus.
//!
//! The message model and wire framing live in [`messages`] and [`codec`];
//! the three role state machines in [`proposer`], [`acceptor`] and
//! [`learner`]; and an in-memory delivery harness in [`network`]. Each role
//! is a pure, synchronous state machine: transport, timeouts and retry
//! policy belong to the caller.

pub mod acceptor;
pub mod codec;
pub mod learner;
pub mod messages;
pub mod network;
pub mod proposer;
