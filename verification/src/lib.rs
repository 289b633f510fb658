//! Decision logic of a field agent that keeps one authenticated link to a
//! control server, joins a topic on it, routes what arrives and merges local
//! event sources into the uplink.
//!
//! The modules decide and the caller acts: it does the waiting and the
//! sending, and hands each outcome back as a plain value. Time comes in as
//! milliseconds and chance as a number, so that every step can be replayed.

pub mod backoff;
pub mod connection;
pub mod message;
pub mod channel;
pub mod dispatcher;
pub mod uplink;
pub mod agent;
pub mod config;
pub mod critical;
