//! The events that tell every window about changes, and the window labels
//! of note windows.

pub mod event_name;

use vstd::prelude::*;

verus! {

/// The payload of a note event: the id of the note concerned.
#[derive(Debug, Clone)]
pub struct NotePayload {
    pub id: String,
}

/// The payload of a settings event: none; windows read the settings anew.
#[derive(Debug, Clone, Copy)]
pub struct ConfigPayload;

/// The prefix of the label of every note window.
pub open spec fn note_window_prefix() -> Seq<char> {
    seq!['n', 'o', 't', 'e', '-']
}

/// The label of the desktop window of a note: `note-<id>`.
pub fn note_window_label(id: &str) -> (res: String)
    ensures
        res@ == note_window_prefix() + id@,
{
    proof {
        reveal_strlit("note-");
        assert("note-"@ =~= note_window_prefix());
    }
    let mut label = String::from_str("note-");
    label.append(id);
    label
}

} // verus!
