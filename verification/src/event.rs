//! The shared event vocabulary of the pipeline. Every stage receives
//! `FileEvent`s, transforms the ones it owns and forwards the rest
//! unchanged; `Organized`, `Cleaned` and `Failed` are terminal and only
//! flow to the logging/alerting sink.

use vstd::prelude::*;
use crate::timestamp::Timestamp;

verus! {

/// Media classification, derived solely from a file's extension against
/// the configured extension sets.
#[derive(Clone, Copy, Debug, PartialEq, Eq, Structural)]
pub enum MediaType {
    Photo,
    Video,
}

/// One file's lifecycle within the pipeline; a path is owned by exactly
/// one in-flight event at a time.
#[derive(Clone, Debug)]
pub enum FileEvent {
    /// The watcher saw the file stay quiet for the debounce interval.
    Detected { path: String, size: u64 },
    /// Validation outcome of the content scanner.
    Scanned { path: String, clean: bool },
    /// A usable timestamp was resolved for the file.
    Enriched { path: String, media_type: MediaType, datetime: Timestamp },
    /// Valid media, but no usable timestamp was found.
    Unsorted { path: String, media_type: MediaType },
    /// Relocation succeeded; both the old and the new path are carried.
    Organized { old_path: String, new_path: String },
    /// The file was deleted as junk.
    Cleaned { path: String, reason: String },
    /// Terminal failure with a human-readable cause.
    Failed { path: String, error: String },
}

/// Terminal events are never re-injected for further pipeline
/// processing; they only flow to the terminal sink.
pub open spec fn is_terminal(e: FileEvent) -> bool {
    match e {
        FileEvent::Organized { .. } => true,
        FileEvent::Cleaned { .. } => true,
        FileEvent::Failed { .. } => true,
        _ => false,
    }
}

} // verus!
