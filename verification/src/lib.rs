//! The core of a badge server: a visit-counter store with write-behind
//! persistence, and a time-to-live cache in front of a rate-limited profile
//! API.
//!
//! Nothing here reads a clock, a socket or a file. Every operation takes the
//! state it works on and, where time matters, the current clock reading; what
//! has to happen outside (a write to the sink, a call to the upstream, a
//! sleep) is handed back to the caller as a value. Each store is changed
//! through exclusive access only, so that its operations take effect one
//! after the other, in whatever order callers arrive.
//!
//! - [`counter`]: the counter store, with [`counter::db`], the queue between
//!   the store and the durable sink
//! - [`access`]: who may create and delete counters
//! - [`linux_do_card`]: the profile cache, the refresh worker's steps, the
//!   rate limiter and the course of a fetch
//! - [`notes`]: free-text notes, cleaned and remembered
//! - [`handler`], [`utils`], [`svg`]: what a request asks for
//! - [`dash`]: the `dashmap` collections behind the stores, with the
//!   contracts that are taken on trust
//! - [`clock`], [`text`], [`config`]: time, strings, settings

pub mod access;
pub mod clock;
pub mod config;
pub mod counter;
pub mod dash;
pub mod handler;
pub mod linux_do_card;
pub mod notes;
pub mod svg;
pub mod text;
pub mod utils;
