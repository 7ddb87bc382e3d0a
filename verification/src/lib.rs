//! Chart-ready geometry, labels and persisted preferences for a live
//! combat-telemetry overlay.
//!
//! The library turns per-combatant damage series and turn/action-value
//! histories into pie spans, bar entries and polyline points, formats
//! numeric labels, wraps long names, and models the user configuration
//! together with its canonical on-disk text form. All values are plain
//! integers, characters and strings; rendering and file access live in
//! the application shell around this crate.

pub mod charts;
pub mod codec;
pub mod compose;
pub mod config;
pub mod format;
pub mod palette;
pub mod wrap;

pub use palette::{get_character_color, palette_color, Rgb, PALETTE_SIZE};
