use vstd::prelude::*;

verus! {

/// Errors of the note store and of its storage layer.
///
/// The variants that stand for failures of the surrounding system (disk,
/// JSON codec, window runtime, global shortcut registration) carry the
/// message of the underlying failure.
#[derive(Debug, Clone)]
pub enum Error {
    /// A read or write on disk failed.
    Io(String),
    /// Encoding or decoding JSON failed.
    Json(String),
    /// A path could not be resolved, or a file could not be recovered.
    Path(String),
    /// No note carries the requested id.
    NotFound(String),
    /// The window runtime reported a failure.
    Tauri(String),
    /// Registering a global shortcut failed.
    Shortcut(String),
}

} // verus!
