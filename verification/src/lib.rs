//! DeskNote core: the note model, the in-memory note store with its
//! operations, configuration merging, storage layout and the recovery and
//! retention rules for data files and backups.

pub mod error;
pub mod events;
pub mod platform;
pub mod state;
pub mod storage;
pub mod types;
