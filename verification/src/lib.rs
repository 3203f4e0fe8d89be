//! Hot reloading of a native dynamic library: the decisions of the reload
//! cycle, stated and proved over plain values.
//!
//! The host process owns the threads, the locks, the file system and the
//! loader. This crate owns every rule: how the artifact and its private copy
//! are named, when a file-system event counts as a change, in which order a
//! reload closes, copies, fingerprints and opens, how subscribers hold a
//! reload back, and when the version moves.

pub mod artifact;
pub mod error;
pub mod file_changes;
pub mod fingerprint;
pub mod laws;
pub mod lib_reload_events;
pub mod lib_reloader;
pub mod resolver;
pub mod text;
pub mod update_loop;
pub mod watcher;

pub use error::HotReloaderError;
pub use lib_reload_events::{BlockReload, ChangedEvent, LibReloadNotifier, LibReloadObserver};
pub use lib_reloader::LibReloader;
