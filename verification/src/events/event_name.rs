//! Event names shared by the backend and the windows.

use vstd::prelude::*;

verus! {

pub const NOTE_CREATED: &'static str = "note:created";

pub const NOTE_UPDATED: &'static str = "note:updated";

pub const NOTE_DELETED: &'static str = "note:deleted";

pub const NOTE_PINNED: &'static str = "note:pinned";

pub const NOTE_UNPINNED: &'static str = "note:unpinned";

pub const CONFIG_UPDATED: &'static str = "config:updated";

/// The tray menu or the global shortcut asks the main window to create a
/// note and pin it.
pub const TRAY_NEW_NOTE: &'static str = "tray:new-note";

/// Saving to disk failed; the windows show the message.
pub const STORAGE_ERROR: &'static str = "storage:error";

} // verus!
