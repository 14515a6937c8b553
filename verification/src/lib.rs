//! Core of a small client-device manager: an ordered registry of named
//! devices with duplicate-name validation, deferred removal with a per-frame
//! compaction pass, and a single-in-flight draft editor.

pub mod device;
pub mod registry;
pub mod state;
pub mod frame;
