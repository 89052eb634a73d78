//! Verified core of an HLS playlist monitor.
//!
//! The library watches live HTTP Live Streaming playlist trees: it parses
//! master and media playlists, carries per-variant state across polls, runs a
//! battery of validation checks, keeps recent errors and events in bounded
//! ring buffers, and prepares webhook notifications. All I/O (HTTP fetching,
//! timers, delivery) is left to the caller, which hands fetched playlist
//! bodies and the current time into the engine.

pub mod api;
pub mod assoc;
pub mod checks;
pub mod config;
pub mod engine;
pub mod error;
pub mod event;
mod ids;
pub mod laws;
pub mod loader;
pub mod messages;
pub mod playlist;
pub mod ring;
pub mod state;
pub mod stream_checks;
pub mod strutil;
pub mod webhook;
