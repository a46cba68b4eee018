//! Imports photos and videos from a camera card into a date-based library.

pub mod classify;
pub mod config;
pub mod copy;
pub mod datetime;
pub mod dedupe;
pub mod engine;
pub mod error;
pub mod events;
pub mod exiftool;
pub mod index;
pub mod metadata;
pub mod mount;
pub mod path;
pub mod plan;
pub mod profiles;
pub mod report;
pub mod roots;
pub mod source;
pub mod template;
pub mod text;
pub mod tui;

pub use config::EngineConfig;
pub use engine::Engine;
pub use error::{Error, Result};
pub use events::{EngineEvent, PlannedAction, PlannedFile};
pub use plan::SyncPlan;
pub use profiles::{CameraProfile, ProfileRegistry};
pub use source::{FilesystemSource, SourceFile, SourceId};
