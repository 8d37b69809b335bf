//! Row-level change detection for a relational database: snapshot diffing,
//! dry-run change reconstruction and a realtime change-feed decoder.
pub mod config;
pub mod connection;
pub mod diff;
pub mod dry_run;
pub mod dto;
pub mod evaluator;
pub mod events;
pub mod json;
pub mod realtime;
pub mod schema;
pub mod snapshot;
pub mod sql;
pub mod text;
pub mod watcher;
