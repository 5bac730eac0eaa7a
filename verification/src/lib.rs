//! A challenge tracker for group chats: every chat that opts in runs its own
//! cycle of days, each day asking every participant for a quota of
//! repetitions that grows from cycle to cycle.
//!
//! The crate holds the rules of the tracker as verified code. Talking to the
//! messaging platform, queues and timers are left to the program around it,
//! which feeds commands in and carries out the requests that come back.

pub mod actor;
pub mod context;
pub mod ingest;
pub mod laws;
pub mod ledger;
pub mod messages;
pub mod registry;
pub mod schedule;
pub mod text;
pub mod totals;
