//! Core of a channel-based chat bot: the command dispatcher with its
//! pipe / demultiplex / bench composition operators, the per-channel
//! session state (hooks and trivia games), the Markov text model with
//! its ingestion filter and sampler, the identity and emote caches,
//! and the storage model those components share.
//!
//! Network and terminal plumbing live outside this crate; the library
//! receives inbound events as plain values and returns the text to be
//! spoken, asking the caller to perform external lookups through
//! explicit request values.

#![verifier::loop_isolation(false)]

mod clock;
mod rng;
pub mod cache;
pub mod dispatch;
pub mod fmt;
pub mod laws;
pub mod markov;
pub mod models;
pub mod options;
pub mod parse;
pub mod store;
pub mod text;
pub mod trivia;
pub mod types;

