//! A user-local manager for self-contained application bundles.
//!
//! A remote (or local) catalog lists the packages that can be had; an
//! installed manifest records which of them are present on disk.  The
//! modules here decide, for every command, how the manifest changes and
//! which bundle files have to appear or disappear; the surrounding binary
//! performs the downloads, extractions and file writes those decisions call
//! for.

pub mod args;
pub mod catalog;
pub mod lifecycle;
pub mod manifest;
pub mod pkg;
