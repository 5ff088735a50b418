//! Core logic of a media-ingest daemon: it classifies files dropped into
//! watched directories, validates their content, extracts a best-effort
//! capture timestamp, and computes collision-free destinations for a
//! canonical `YYYY/YYYY-MM` photo layout.
//!
//! All I/O (filesystem watching, moving files, process spawning, HTTP
//! alerts) lives outside this crate; the functions here work on plain
//! values and carry contracts for what they compute.

pub mod alerts;
pub mod checks;
pub mod config;
pub mod decimal;
pub mod event;
pub mod fsmodel;
pub mod metadata;
pub mod mover;
pub mod nextcloud;
pub mod organizer;
pub mod pipeline;
pub mod scanner;
pub mod strutil;
pub mod timestamp;
pub mod watcher;
