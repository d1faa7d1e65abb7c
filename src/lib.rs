//! Discovery of installed games from a package manager's library folders and
//! manifests, repair planning for desktop shortcuts whose icons are missing,
//! and reversible staging of install folders.
//!
//! The library decides; the caller performs the filesystem and network work
//! and hands the outcomes back as plain values.
pub mod text;
pub mod keyvalue;
pub mod locator;
pub mod manifest;
pub mod catalog;
pub mod shortcut;
pub mod repair;
pub mod stager;
