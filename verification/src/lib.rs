//! Inspects a content-addressable object store backing a version-control
//! repository and reports the largest stored blob objects, to help find
//! bloat candidates.
//!
//! The library locates the repository root, enumerates every object in the
//! store's low-level object database, classifies each by kind, accumulates
//! aggregate size statistics, and ranks blob records by descending size.
pub mod blob_item;
pub mod cleaner;
pub mod errors;
pub mod laws;
pub mod locate;
pub mod ranking;
pub mod store;

pub use blob_item::{BlobFormat, BlobItem, ObjectId};
pub use cleaner::{AggregateStats, Cleaner, EngineState, EngineView, ObjectEvent};
pub use errors::CleanerError;
pub use locate::{dir_has_marker, get_project_root};
pub use store::ObjectKind;
