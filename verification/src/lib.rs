//! Native-resource lifecycle and orchestration layer for an external
//! automation engine driven through opaque handles.
//!
//! The library models engine handles as plain addresses and keeps all of the
//! decision logic — controller pooling with reference counts, per-instance
//! runtime state and ordered teardown, epoch-scoped download cancellation,
//! chunk buffering, and network-facing filename sanitization — as verified
//! code over plain values. The surrounding process (I/O, the engine's FFI,
//! the HTTP client) lives outside and exchanges plain values with this crate.

pub mod bytes;
pub mod config;
pub mod download;
pub mod errors;
pub mod filename;
pub mod instance;
pub mod outside;
pub mod paths;
pub mod pool;
pub mod state;
pub mod webview;
