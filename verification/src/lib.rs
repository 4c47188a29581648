//! Core of a multi-tenant module host: a concurrency-safe module registry,
//! a per-tenant activation state machine, a command-synchronization planner,
//! and a permission gate.
//!
//! Transport, persistence and remote calls live outside the library; the
//! library computes over plain values and states exactly what it does.

pub mod activation;
pub mod codec;
pub mod config;
pub mod errors;
pub mod modules;
pub mod permissions;
pub mod registry;
pub mod sync;
pub mod tg_verify;
pub mod tgdb;
pub mod text;

pub use text::str_eq;
