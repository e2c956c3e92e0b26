//! Join-calculus junctions.
//!
//! Channels are created independently and combined into join patterns. A
//! pattern fires once, atomically, when every channel it names holds a pending
//! message; its reaction runs on the junction's single dispatch point and its
//! results are routed back to the callers that wait for a reply.
//!
//! The modules, leaves first:
//! - [`ids`]: channel and junction identities;
//! - [`transport`]: the standard channels that carry values between threads;
//! - [`reply`]: the one-shot reply pairs;
//! - [`message`]: messages and the envelopes that carry them;
//! - [`channels`]: the typed handles callers hold;
//! - [`model`]: the mathematical model of pending messages and of matching;
//! - [`bag`]: the per-channel queues of pending messages;
//! - [`pattern`]: join patterns and the table that indexes them by channel;
//! - [`engine`]: the matching engine;
//! - [`junction`]: the junction and its dispatch point;
//! - [`laws`]: what holds of every run of the model.

pub mod ids;
pub mod transport;
pub mod reply;
pub mod message;
pub mod channels;
pub mod model;
pub mod bag;
pub mod pattern;
pub mod engine;
pub mod junction;
pub mod laws;
