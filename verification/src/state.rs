//! The note store: the notes and the settings held in memory, and every
//! operation on them. Each operation here changes only the memory; the
//! caller writes the notes (or the settings) to disk afterwards, as
//! [`AppState::backup_after_save`] and the storage rules direct.

use vstd::prelude::*;

use crate::error::Error;
use crate::platform::{now_millis, random_uuid_bytes, is_random_uuid};
use crate::storage::Storage;
use crate::types::{is_fresh_note, Config, DataFile, Note, NoteColor};

verus! {

/// A partial update of a note: the fields that are `Some` replace those of
/// the note.
#[derive(Debug, Clone)]
pub struct UpdateNoteFields {
    pub title: Option<String>,
    pub content: Option<String>,
    pub color: Option<NoteColor>,
    pub width: Option<u32>,
    pub height: Option<u32>,
    pub x: Option<i32>,
    pub y: Option<i32>,
    /// The display the note window sits on.
    pub monitor: Option<String>,
}

/// How many notes an import added, and how many it skipped because a note
/// with the same id was already there.
#[derive(Debug, Clone, Copy, PartialEq, Eq, Structural)]
pub struct ImportResult {
    pub imported: usize,
    pub skipped: usize,
}

/// A partial update of the settings: the fields that are `Some` replace
/// those of the settings.
#[derive(Debug, Clone)]
pub struct ConfigPatch {
    pub auto_start: Option<bool>,
    pub hotkey: Option<String>,
    pub default_color: Option<NoteColor>,
    pub auto_backup: Option<bool>,
    pub backup_keep: Option<u32>,
    pub theme: Option<crate::types::Theme>,
    pub close_action: Option<crate::types::CloseAction>,
    pub always_on_top: Option<bool>,
}

/// The note after a partial update at time `now`.
pub open spec fn with_fields(n: Note, f: UpdateNoteFields, now: i64) -> Note {
    Note {
        title: match f.title {
            Some(t) => t,
            None => n.title,
        },
        content: match f.content {
            Some(c) => c,
            None => n.content,
        },
        color: match f.color {
            Some(c) => c,
            None => n.color,
        },
        width: match f.width {
            Some(w) => w,
            None => n.width,
        },
        height: match f.height {
            Some(h) => h,
            None => n.height,
        },
        x: match f.x {
            Some(x) => x,
            None => n.x,
        },
        y: match f.y {
            Some(y) => y,
            None => n.y,
        },
        monitor: match f.monitor {
            Some(m) => m,
            None => n.monitor,
        },
        updated_at: now,
        ..n
    }
}

/// The note pinned to the desktop or retracted at time `now`.
pub open spec fn with_pinned(n: Note, pinned: bool, now: i64) -> Note {
    Note { pinned, updated_at: now, ..n }
}

/// The note marked completed at time `now`; a completed note is unchanged.
pub open spec fn completed(n: Note, now: i64) -> Note {
    if n.completed_at is None {
        Note { completed_at: Some(now), updated_at: now, ..n }
    } else {
        n
    }
}

/// The note marked not completed at time `now`; a note that is not
/// completed is unchanged.
pub open spec fn uncompleted(n: Note, now: i64) -> Note {
    if n.completed_at is Some {
        Note { completed_at: None, updated_at: now, ..n }
    } else {
        n
    }
}

/// The settings after a partial update.
pub open spec fn merged_config(c: Config, p: ConfigPatch) -> Config {
    Config {
        auto_start: match p.auto_start {
            Some(v) => v,
            None => c.auto_start,
        },
        hotkey: match p.hotkey {
            Some(v) => v,
            None => c.hotkey,
        },
        default_color: match p.default_color {
            Some(v) => v,
            None => c.default_color,
        },
        auto_backup: match p.auto_backup {
            Some(v) => v,
            None => c.auto_backup,
        },
        backup_keep: match p.backup_keep {
            Some(v) => v,
            None => c.backup_keep,
        },
        theme: match p.theme {
            Some(v) => v,
            None => c.theme,
        },
        close_action: match p.close_action {
            Some(v) => v,
            None => c.close_action,
        },
        always_on_top: match p.always_on_top {
            Some(v) => v,
            None => c.always_on_top,
        },
    }
}

/// Some note carries the id.
pub open spec fn has_note(notes: Seq<Note>, id: Seq<char>) -> bool {
    exists|j: int| 0 <= j < notes.len() && (#[trigger] notes[j]).id@ == id
}

/// Position `i` holds the first note that carries the id.
pub open spec fn is_first_with_id(notes: Seq<Note>, id: Seq<char>, i: int) -> bool {
    &&& 0 <= i < notes.len()
    &&& notes[i].id@ == id
    &&& forall|j: int| 0 <= j < i ==> (#[trigger] notes[j]).id@ != id
}

/// The notes without those that carry the id, in their order.
pub open spec fn without_id(notes: Seq<Note>, id: Seq<char>) -> Seq<Note>
    decreases notes.len(),
{
    if notes.len() == 0 {
        notes
    } else {
        let rest = without_id(notes.drop_last(), id);
        if notes.last().id@ == id {
            rest
        } else {
            rest.push(notes.last())
        }
    }
}

/// The incoming notes that an import adds, in their order: each incoming
/// note whose id is carried neither by a note of `existing` nor by a note
/// added before it in the same import.
pub open spec fn new_notes(existing: Seq<Note>, incoming: Seq<Note>) -> Seq<Note>
    decreases incoming.len(),
{
    if incoming.len() == 0 {
        incoming
    } else {
        let rest = new_notes(existing, incoming.drop_last());
        if has_note(existing + rest, incoming.last().id@) {
            rest
        } else {
            rest.push(incoming.last())
        }
    }
}

/// The notes that are pinned to the desktop, in their order.
pub open spec fn pinned_notes(notes: Seq<Note>) -> Seq<Note>
    decreases notes.len(),
{
    if notes.len() == 0 {
        notes
    } else {
        let rest = pinned_notes(notes.drop_last());
        if notes.last().pinned {
            rest.push(notes.last())
        } else {
            rest
        }
    }
}

/// The outcome of an operation on the note with a given id: on success
/// the first note with that id, position `i`, is replaced by the returned
/// note, which is `f` of the old one; when no note carries the id, a
/// not-found error that names it, and nothing changes.
pub open spec fn edits_first_with_id(
    old_notes: Seq<Note>,
    new_notes_: Seq<Note>,
    id: Seq<char>,
    res: Result<Note, Error>,
    f: spec_fn(Note) -> Note,
) -> bool {
    match res {
        Ok(n) => exists|i: int|
            is_first_with_id(old_notes, id, i) && n == f(old_notes[i]) && new_notes_
                == old_notes.update(i, n),
        Err(e) => !has_note(old_notes, id) && new_notes_ == old_notes && (e matches Error::NotFound(
            m,
        ) && m@ == id),
    }
}

/// A note just appended can be found by its id afterwards, so the
/// operations on that id succeed.
pub proof fn created_note_is_found(notes: Seq<Note>, n: Note)
    ensures
        has_note(notes.push(n), n.id@),
{
    assert(notes.push(n)[notes.len() as int] == n);
}

/// Whether completing (`complete`) or marking not completed (otherwise) the
/// note with the id would change the notes: some note carries the id, and
/// the first one is not completed (or is completed).
pub open spec fn completion_changes(notes: Seq<Note>, id: Seq<char>, complete: bool) -> bool {
    exists|i: int|
        is_first_with_id(notes, id, i) && if complete {
            notes[i].completed_at is None
        } else {
            notes[i].completed_at is Some
        }
}

/// No two notes carry the same id.
pub open spec fn ids_are_distinct(notes: Seq<Note>) -> bool {
    forall|i: int, j: int|
        0 <= i < notes.len() && 0 <= j < notes.len() && i != j ==> (#[trigger] notes[i]).id@
            != (#[trigger] notes[j]).id@
}

/// Completing a note twice is completing it once: the second completion
/// keeps the first completion time.
pub proof fn complete_is_idempotent(n: Note, first: i64, second: i64)
    ensures
        completed(completed(n, first), second) == completed(n, first),
        completed(n, first).completed_at is Some,
{
}

/// Marking a note not completed twice is doing it once.
pub proof fn uncomplete_is_idempotent(n: Note, first: i64, second: i64)
    ensures
        uncompleted(uncompleted(n, first), second) == uncompleted(n, first),
        uncompleted(n, first).completed_at is None,
{
}

/// Completing a note that is not completed records the time of completion
/// as its modification time; marking it not completed again clears the
/// completion and keeps the rest of the note.
pub proof fn complete_then_uncomplete(n: Note, t1: i64, t2: i64)
    requires
        n.completed_at is None,
    ensures
        completed(n, t1).completed_at == Some(t1),
        completed(n, t1).updated_at == t1,
        uncompleted(completed(n, t1), t2) == (Note { updated_at: t2, ..n }),
{
}

/// Completing a note or marking it not completed leaves whether it is
/// pinned, and its text, as they were.
pub proof fn completion_keeps_pin_and_text(n: Note, now: i64)
    ensures
        completed(n, now).pinned == n.pinned,
        uncompleted(n, now).pinned == n.pinned,
        completed(n, now).title == n.title && completed(n, now).content == n.content,
        uncompleted(n, now).title == n.title && uncompleted(n, now).content == n.content,
{
}

/// An update that gives no field changes nothing but the modification time.
pub proof fn empty_update_only_touches(n: Note, f: UpdateNoteFields, now: i64)
    requires
        f.title is None,
        f.content is None,
        f.color is None,
        f.width is None,
        f.height is None,
        f.x is None,
        f.y is None,
        f.monitor is None,
    ensures
        with_fields(n, f, now) == (Note { updated_at: now, ..n }),
{
}

/// Pinning and retracting change only the pinned flag and the modification
/// time; the last one wins.
pub proof fn pinning_keeps_the_note(n: Note, p1: bool, t1: i64, p2: bool, t2: i64)
    ensures
        with_pinned(n, p1, t1).pinned == p1,
        with_pinned(with_pinned(n, p1, t1), p2, t2) == with_pinned(n, p2, t2),
{
}

/// Pinning or retracting a note sets its pinned flag to the requested value
/// and its modification time to the time of the call; every other field,
/// in particular its position and size, is the note's own.
pub proof fn pinning_changes_only_flag_and_time(n: Note, p: bool, t: i64)
    ensures
        with_pinned(n, p, t).pinned == p,
        with_pinned(n, p, t).updated_at == t,
        with_pinned(n, p, t).id == n.id,
        with_pinned(n, p, t).title == n.title,
        with_pinned(n, p, t).content == n.content,
        with_pinned(n, p, t).color == n.color,
        with_pinned(n, p, t).width == n.width,
        with_pinned(n, p, t).height == n.height,
        with_pinned(n, p, t).x == n.x,
        with_pinned(n, p, t).y == n.y,
        with_pinned(n, p, t).created_at == n.created_at,
        with_pinned(n, p, t).rotation_milli == n.rotation_milli,
        with_pinned(n, p, t).monitor == n.monitor,
        with_pinned(n, p, t).completed_at == n.completed_at,
{
}

/// A partial update gives each field the value the update carries for it,
/// keeps each field the update leaves out, sets the modification time to
/// the time of the update, and keeps the id, creation time, pinned flag,
/// tilt and completion.
pub proof fn update_takes_given_fields(n: Note, f: UpdateNoteFields, now: i64)
    ensures
        f.title matches Some(v) ==> with_fields(n, f, now).title == v,
        f.title is None ==> with_fields(n, f, now).title == n.title,
        f.content matches Some(v) ==> with_fields(n, f, now).content == v,
        f.content is None ==> with_fields(n, f, now).content == n.content,
        f.color matches Some(v) ==> with_fields(n, f, now).color == v,
        f.color is None ==> with_fields(n, f, now).color == n.color,
        f.width matches Some(v) ==> with_fields(n, f, now).width == v,
        f.width is None ==> with_fields(n, f, now).width == n.width,
        f.height matches Some(v) ==> with_fields(n, f, now).height == v,
        f.height is None ==> with_fields(n, f, now).height == n.height,
        f.x matches Some(v) ==> with_fields(n, f, now).x == v,
        f.x is None ==> with_fields(n, f, now).x == n.x,
        f.y matches Some(v) ==> with_fields(n, f, now).y == v,
        f.y is None ==> with_fields(n, f, now).y == n.y,
        f.monitor matches Some(v) ==> with_fields(n, f, now).monitor == v,
        f.monitor is None ==> with_fields(n, f, now).monitor == n.monitor,
        with_fields(n, f, now).updated_at == now,
        with_fields(n, f, now).id == n.id,
        with_fields(n, f, now).created_at == n.created_at,
        with_fields(n, f, now).pinned == n.pinned,
        with_fields(n, f, now).rotation_milli == n.rotation_milli,
        with_fields(n, f, now).completed_at == n.completed_at,
{
}

/// A settings update gives each setting the value the update carries for
/// it and keeps each setting the update leaves out.
pub proof fn config_update_takes_given_fields(c: Config, p: ConfigPatch)
    ensures
        p.auto_start matches Some(v) ==> merged_config(c, p).auto_start == v,
        p.auto_start is None ==> merged_config(c, p).auto_start == c.auto_start,
        p.hotkey matches Some(v) ==> merged_config(c, p).hotkey == v,
        p.hotkey is None ==> merged_config(c, p).hotkey == c.hotkey,
        p.default_color matches Some(v) ==> merged_config(c, p).default_color == v,
        p.default_color is None ==> merged_config(c, p).default_color == c.default_color,
        p.auto_backup matches Some(v) ==> merged_config(c, p).auto_backup == v,
        p.auto_backup is None ==> merged_config(c, p).auto_backup == c.auto_backup,
        p.backup_keep matches Some(v) ==> merged_config(c, p).backup_keep == v,
        p.backup_keep is None ==> merged_config(c, p).backup_keep == c.backup_keep,
        p.theme matches Some(v) ==> merged_config(c, p).theme == v,
        p.theme is None ==> merged_config(c, p).theme == c.theme,
        p.close_action matches Some(v) ==> merged_config(c, p).close_action == v,
        p.close_action is None ==> merged_config(c, p).close_action == c.close_action,
        p.always_on_top matches Some(v) ==> merged_config(c, p).always_on_top == v,
        p.always_on_top is None ==> merged_config(c, p).always_on_top == c.always_on_top,
{
}

/// The test "the note carries an id other than `id`".
pub open spec fn other_id(id: Seq<char>) -> spec_fn(Note) -> bool {
    |n: Note| n.id@ != id
}

/// Deleting by id keeps exactly the notes with other ids, in their order:
/// the old notes filtered by "carries another id".
pub proof fn delete_keeps_other_notes_in_order(notes: Seq<Note>, id: Seq<char>)
    ensures
        without_id(notes, id) == notes.filter(other_id(id)),
    decreases notes.len(),
{
    reveal(Seq::filter);
    if notes.len() > 0 {
        delete_keeps_other_notes_in_order(notes.drop_last(), id);
    }
}

/// The pinned notes are exactly the notes filtered by "is pinned", in
/// their order, whatever else they hold.
pub proof fn pinned_notes_are_the_pinned_ones(notes: Seq<Note>)
    ensures
        pinned_notes(notes) == notes.filter(|n: Note| n.pinned),
    decreases notes.len(),
{
    reveal(Seq::filter);
    if notes.len() > 0 {
        pinned_notes_are_the_pinned_ones(notes.drop_last());
    }
}

/// A settings update that gives no field changes nothing, and applying the
/// same update twice is applying it once.
pub proof fn config_merge_laws(c: Config, p: ConfigPatch, empty: ConfigPatch)
    requires
        empty.auto_start is None,
        empty.hotkey is None,
        empty.default_color is None,
        empty.auto_backup is None,
        empty.backup_keep is None,
        empty.theme is None,
        empty.close_action is None,
        empty.always_on_top is None,
    ensures
        merged_config(c, empty) == c,
        merged_config(merged_config(c, p), p) == merged_config(c, p),
{
}

/// After a delete no note carries the id, and every note with another id
/// is kept.
pub proof fn delete_removes_exactly_the_id(notes: Seq<Note>, id: Seq<char>)
    ensures
        !has_note(without_id(notes, id), id),
        forall|j: int|
            0 <= j < notes.len() && (#[trigger] notes[j]).id@ != id ==> without_id(notes, id).contains(
                notes[j],
            ),
        without_id(notes, id).len() <= notes.len(),
    decreases notes.len(),
{
    if notes.len() > 0 {
        let init = notes.drop_last();
        delete_removes_exactly_the_id(init, id);
        let rest = without_id(init, id);
        let w = without_id(notes, id);
        if has_note(w, id) {
            let j = choose|j: int| 0 <= j < w.len() && (#[trigger] w[j]).id@ == id;
            if j < rest.len() {
                assert(w[j] == rest[j]);
            }
        }
        assert forall|j: int|
            0 <= j < notes.len() && (#[trigger] notes[j]).id@ != id implies w.contains(notes[j]) by {
            if j < notes.len() - 1 {
                assert(notes[j] == init[j]);
                assert(rest.contains(init[j]));
                let k = choose|k: int| 0 <= k < rest.len() && rest[k] == init[j];
                assert(w[k] == rest[k]);
            } else {
                assert(w[w.len() - 1] == notes[j]);
            }
        }
    }
}

/// A note held by a sequence is held by any longer sequence that starts
/// with it.
proof fn lemma_has_note_extends(a: Seq<Note>, b: Seq<Note>, id: Seq<char>)
    requires
        has_note(a, id),
    ensures
        has_note(a + b, id),
{
    let j = choose|j: int| 0 <= j < a.len() && (#[trigger] a[j]).id@ == id;
    assert((a + b)[j] == a[j]);
}

/// The notes an import adds are incoming notes whose ids the held notes do
/// not carry; afterwards every incoming id is carried; and ids that were
/// distinct stay distinct.
proof fn lemma_new_notes(existing: Seq<Note>, incoming: Seq<Note>)
    ensures
        new_notes(existing, incoming).len() <= incoming.len(),
        forall|k: int|
            0 <= k < new_notes(existing, incoming).len() ==> !has_note(
                existing,
                (#[trigger] new_notes(existing, incoming)[k]).id@,
            ) && incoming.contains(new_notes(existing, incoming)[k]),
        forall|j: int|
            0 <= j < incoming.len() ==> has_note(
                existing + new_notes(existing, incoming),
                (#[trigger] incoming[j]).id@,
            ),
        ids_are_distinct(existing) ==> ids_are_distinct(existing + new_notes(existing, incoming)),
    decreases incoming.len(),
{
    if incoming.len() > 0 {
        let init = incoming.drop_last();
        lemma_new_notes(existing, init);
        let rest = new_notes(existing, init);
        let r = new_notes(existing, incoming);
        let last = incoming.last();
        let added = !has_note(existing + rest, last.id@);
        if added {
            assert(r == rest.push(last));
            assert(existing + r =~= (existing + rest).push(last));
        } else {
            assert(r == rest);
        }
        assert forall|k: int| 0 <= k < r.len() implies !has_note(
            existing,
            (#[trigger] r[k]).id@,
        ) && incoming.contains(r[k]) by {
            if k < rest.len() {
                assert(r[k] == rest[k]);
                let m = choose|m: int| 0 <= m < init.len() && init[m] == rest[k];
                assert(incoming[m] == init[m]);
            } else {
                assert(r[k] == last);
                assert(incoming[incoming.len() - 1] == last);
                if has_note(existing, last.id@) {
                    lemma_has_note_extends(existing, rest, last.id@);
                }
            }
        }
        assert forall|j: int| 0 <= j < incoming.len() implies has_note(
            existing + r,
            (#[trigger] incoming[j]).id@,
        ) by {
            if j < incoming.len() - 1 {
                assert(incoming[j] == init[j]);
                assert(has_note(existing + rest, init[j].id@));
                if added {
                    lemma_has_note_extends(existing + rest, seq![last], init[j].id@);
                    assert((existing + rest) + seq![last] =~= existing + r);
                }
            } else {
                if added {
                    assert((existing + r)[(existing.len() + rest.len()) as int] == last);
                }
            }
        }
        if ids_are_distinct(existing) && added {
            let e = existing + rest;
            let f = existing + r;
            assert forall|a: int, b: int|
                0 <= a < f.len() && 0 <= b < f.len() && a != b implies (#[trigger] f[a]).id@
                    != (#[trigger] f[b]).id@ by {
                if a < e.len() && b < e.len() {
                    assert(f[a] == e[a]);
                    assert(f[b] == e[b]);
                } else if a < e.len() {
                    assert(f[a] == e[a]);
                    assert(f[b] == last);
                } else {
                    assert(f[b] == e[b]);
                    assert(f[a] == last);
                }
            }
        }
    }
}

/// Importing notes with distinct ids into an empty store adds every one of
/// them, in order.
pub proof fn import_into_empty_adds_all(incoming: Seq<Note>)
    requires
        ids_are_distinct(incoming),
    ensures
        new_notes(Seq::<Note>::empty(), incoming) == incoming,
    decreases incoming.len(),
{
    if incoming.len() > 0 {
        let init = incoming.drop_last();
        assert forall|a: int, b: int|
            0 <= a < init.len() && 0 <= b < init.len() && a != b implies (#[trigger] init[a]).id@
                != (#[trigger] init[b]).id@ by {
            assert(init[a] == incoming[a]);
            assert(init[b] == incoming[b]);
        }
        import_into_empty_adds_all(init);
        let e = Seq::<Note>::empty() + init;
        assert(e =~= init);
        if has_note(e, incoming.last().id@) {
            let j = choose|j: int| 0 <= j < e.len() && (#[trigger] e[j]).id@ == incoming.last().id@;
            assert(init[j] == incoming[j]);
            assert(incoming[j].id@ != incoming[incoming.len() - 1].id@);
        }
        assert(init.push(incoming.last()) =~= incoming);
    }
}

/// The notes an import adds never share an id with a note held before it.
pub proof fn import_adds_only_new_ids(existing: Seq<Note>, incoming: Seq<Note>)
    ensures
        forall|k: int|
            0 <= k < new_notes(existing, incoming).len() ==> !has_note(
                existing,
                (#[trigger] new_notes(existing, incoming)[k]).id@,
            ),
{
    lemma_new_notes(existing, incoming);
}

/// Notes with distinct ids keep distinct ids after an import, and every
/// incoming id is then carried by a note.
pub proof fn import_keeps_ids_distinct(existing: Seq<Note>, incoming: Seq<Note>)
    ensures
        ids_are_distinct(existing) ==> ids_are_distinct(existing + new_notes(existing, incoming)),
        forall|j: int|
            0 <= j < incoming.len() ==> has_note(
                existing + new_notes(existing, incoming),
                (#[trigger] incoming[j]).id@,
            ),
{
    lemma_new_notes(existing, incoming);
}

/// Importing the same notes a second time adds nothing.
pub proof fn import_twice_adds_nothing(existing: Seq<Note>, incoming: Seq<Note>)
    ensures
        new_notes(existing + new_notes(existing, incoming), incoming).len() == 0,
{
    lemma_new_notes(existing, incoming);
    let after = existing + new_notes(existing, incoming);
    lemma_new_notes(after, incoming);
    let again = new_notes(after, incoming);
    if again.len() > 0 {
        let x = again[0];
        assert(!has_note(after, x.id@));
        let m = choose|m: int| 0 <= m < incoming.len() && incoming[m] == x;
        assert(has_note(after, incoming[m].id@));
    }
}

/// The modification time of the note an operation returned.
pub open spec fn stamp_of(res: Result<Note, Error>) -> i64 {
    match res {
        Ok(n) => n.updated_at,
        Err(_) => 0,
    }
}

/// The application state: the notes, the settings, and where they are
/// stored.
pub struct AppState {
    data: DataFile,
    config: Config,
    storage: Storage,
}

impl AppState {
    /// The notes, in their order.
    pub closed spec fn notes(&self) -> Seq<Note> {
        self.data.notes@
    }

    /// The settings.
    pub closed spec fn settings(&self) -> Config {
        self.config
    }

    /// Where the data is stored.
    pub closed spec fn location(&self) -> Seq<Seq<char>> {
        self.storage.location()
    }

    /// The state over a storage, with the notes and settings read from it.
    pub fn from_storage(storage: Storage, data: DataFile, config: Config) -> (res: AppState)
        ensures
            res.notes() == data.notes@,
            res.settings() == config,
            res.location() == storage.location(),
    {
        AppState { data, config, storage }
    }

    /// The storage.
    pub fn storage(&self) -> (res: &Storage)
        ensures
            res.location() == self.location(),
    {
        &self.storage
    }

    /// The notes as they are to be saved or exported.
    pub fn data_file(&self) -> (res: &DataFile)
        ensures
            res.notes@ == self.notes(),
    {
        &self.data
    }

    /// A copy of all notes.
    pub fn list_notes(&self) -> (res: Vec<Note>)
        ensures
            res@ == self.notes(),
    {
        let mut res: Vec<Note> = Vec::new();
        let n = self.data.notes.len();
        let mut i: usize = 0;
        while i < n
            invariant
                n == self.notes().len(),
                self.notes() == self.data.notes@,
                i <= n,
                res@ == self.notes().take(i as int),
            decreases n - i,
        {
            res.push(self.data.notes[i].snapshot());
            i = i + 1;
            assert(res@ =~= self.notes().take(i as int));
        }
        assert(res@ =~= self.notes());
        res
    }

    /// The position of the first note that carries the id.
    fn find_note(&self, id: &str) -> (res: Option<usize>)
        ensures
            match res {
                Some(i) => is_first_with_id(self.notes(), id@, i as int),
                None => !has_note(self.notes(), id@),
            },
    {
        let key = String::from_str(id);
        let n = self.data.notes.len();
        let mut i: usize = 0;
        while i < n
            invariant
                n == self.notes().len(),
                self.notes() == self.data.notes@,
                key@ == id@,
                i <= n,
                forall|j: int| 0 <= j < i ==> (#[trigger] self.notes()[j]).id@ != id@,
            decreases n - i,
        {
            if self.data.notes[i].id == key {
                return Some(i);
            }
            i = i + 1;
        }
        None
    }

    /// A not-found error naming the id.
    fn not_found(id: &str) -> (res: Error)
        ensures
            res matches Error::NotFound(m) && m@ == id@,
    {
        Error::NotFound(String::from_str(id))
    }

    /// Creates a note from the bytes of its UUID and the current time, with
    /// the given title, text and colour, and appends it to the notes.
    pub fn create_note_with(
        &mut self,
        uuid: [u8; 16],
        now: i64,
        title: String,
        content: String,
        color: NoteColor,
    ) -> (res: Note)
        ensures
            is_fresh_note(res, uuid@, now),
            res.title == title,
            res.content == content,
            res.color == color,
            final(self).notes() == old(self).notes().push(res),
            final(self).settings() == old(self).settings(),
            final(self).location() == old(self).location(),
    {
        let mut note = Note::new_from(uuid, now);
        note.title = title;
        note.content = content;
        note.color = color;
        let created = note.snapshot();
        self.data.notes.push(note);
        created
    }

    /// Creates a note with a fresh random UUID at the current time, with the
    /// given title, text and colour, and appends it to the notes.
    pub fn create_note(&mut self, title: String, content: String, color: NoteColor) -> (res: Note)
        ensures
            exists|bytes: Seq<u8>|
                is_random_uuid(bytes) && is_fresh_note(res, bytes, res.created_at),
            res.title == title,
            res.content == content,
            res.color == color,
            final(self).notes() == old(self).notes().push(res),
            final(self).settings() == old(self).settings(),
            final(self).location() == old(self).location(),
    {
        let uuid = random_uuid_bytes();
        let now = now_millis();
        self.create_note_with(uuid, now, title, content, color)
    }

    /// Creates a note as the user requests it: a missing title or text is
    /// empty, and a missing colour is the default colour of the settings.
    pub fn create_requested_note(
        &mut self,
        title: Option<String>,
        content: Option<String>,
        color: Option<NoteColor>,
    ) -> (res: Note)
        ensures
            exists|bytes: Seq<u8>|
                is_random_uuid(bytes) && is_fresh_note(res, bytes, res.created_at),
            match title {
                Some(t) => res.title == t,
                None => res.title@ == Seq::<char>::empty(),
            },
            match content {
                Some(c) => res.content == c,
                None => res.content@ == Seq::<char>::empty(),
            },
            res.color == match color {
                Some(c) => c,
                None => old(self).settings().default_color,
            },
            final(self).notes() == old(self).notes().push(res),
            final(self).settings() == old(self).settings(),
            final(self).location() == old(self).location(),
    {
        let color = match color {
            Some(c) => c,
            None => self.config.default_color,
        };
        let title = match title {
            Some(t) => t,
            None => String::new(),
        };
        let content = match content {
            Some(c) => c,
            None => String::new(),
        };
        self.create_note(title, content, color)
    }

    /// Applies a partial update at time `now` to the first note that carries
    /// the id, and returns the updated note.
    pub fn update_note_at(&mut self, id: &str, fields: &UpdateNoteFields, now: i64) -> (res: Result<
        Note,
        Error,
    >)
        ensures
            edits_first_with_id(
                old(self).notes(),
                final(self).notes(),
                id@,
                res,
                |n: Note| with_fields(n, *fields, now),
            ),
            res matches Ok(r) ==> {
                &&& fields.title matches Some(v) ==> r.title == v
                &&& fields.content matches Some(v) ==> r.content == v
                &&& fields.color matches Some(v) ==> r.color == v
                &&& fields.width matches Some(v) ==> r.width == v
                &&& fields.height matches Some(v) ==> r.height == v
                &&& fields.x matches Some(v) ==> r.x == v
                &&& fields.y matches Some(v) ==> r.y == v
                &&& fields.monitor matches Some(v) ==> r.monitor == v
                &&& r.updated_at == now
            },
            res is Ok <==> has_note(old(self).notes(), id@),
            final(self).settings() == old(self).settings(),
            final(self).location() == old(self).location(),
    {
        let i = match self.find_note(id) {
            Some(i) => i,
            None => {
                return Err(Self::not_found(id));
            },
        };
        let mut note = self.data.notes[i].snapshot();
        match &fields.title {
            Some(t) => {
                note.title = t.clone();
            },
            None => {},
        }
        match &fields.content {
            Some(c) => {
                note.content = c.clone();
            },
            None => {},
        }
        match fields.color {
            Some(c) => {
                note.color = c;
            },
            None => {},
        }
        match fields.width {
            Some(w) => {
                note.width = w;
            },
            None => {},
        }
        match fields.height {
            Some(h) => {
                note.height = h;
            },
            None => {},
        }
        match fields.x {
            Some(x) => {
                note.x = x;
            },
            None => {},
        }
        match fields.y {
            Some(y) => {
                note.y = y;
            },
            None => {},
        }
        match &fields.monitor {
            Some(m) => {
                note.monitor = m.clone();
            },
            None => {},
        }
        note.touch_at(now);
        let updated = note.snapshot();
        self.data.notes[i] = note;
        Ok(updated)
    }

    /// Applies a partial update now to the first note that carries the id.
    pub fn update_note(&mut self, id: &str, fields: &UpdateNoteFields) -> (res: Result<Note, Error>)
        ensures
            edits_first_with_id(
                old(self).notes(),
                final(self).notes(),
                id@,
                res,
                |n: Note| with_fields(n, *fields, stamp_of(res)),
            ),
            res is Ok <==> has_note(old(self).notes(), id@),
            final(self).settings() == old(self).settings(),
            final(self).location() == old(self).location(),
    {
        let now = now_millis();
        self.update_note_at(id, fields, now)
    }

    /// Pins the first note that carries the id to the desktop, or retracts
    /// it, at time `now`.
    pub fn set_pinned_at(&mut self, id: &str, pinned: bool, now: i64) -> (res: Result<Note, Error>)
        ensures
            edits_first_with_id(
                old(self).notes(),
                final(self).notes(),
                id@,
                res,
                |n: Note| with_pinned(n, pinned, now),
            ),
            res matches Ok(r) ==> r.pinned == pinned && r.updated_at == now,
            res is Ok <==> has_note(old(self).notes(), id@),
            final(self).settings() == old(self).settings(),
            final(self).location() == old(self).location(),
    {
        let i = match self.find_note(id) {
            Some(i) => i,
            None => {
                return Err(Self::not_found(id));
            },
        };
        let mut note = self.data.notes[i].snapshot();
        note.pinned = pinned;
        note.touch_at(now);
        let updated = note.snapshot();
        self.data.notes[i] = note;
        Ok(updated)
    }

    /// Pins the first note that carries the id to the desktop, or retracts
    /// it, now.
    pub fn set_pinned(&mut self, id: &str, pinned: bool) -> (res: Result<Note, Error>)
        ensures
            edits_first_with_id(
                old(self).notes(),
                final(self).notes(),
                id@,
                res,
                |n: Note| with_pinned(n, pinned, stamp_of(res)),
            ),
            res is Ok <==> has_note(old(self).notes(), id@),
            final(self).settings() == old(self).settings(),
            final(self).location() == old(self).location(),
    {
        let now = now_millis();
        self.set_pinned_at(id, pinned, now)
    }

    /// Marks the first note that carries the id as completed at time `now`;
    /// a note that is already completed keeps its completion time.
    pub fn complete_at(&mut self, id: &str, now: i64) -> (res: Result<Note, Error>)
        ensures
            edits_first_with_id(
                old(self).notes(),
                final(self).notes(),
                id@,
                res,
                |n: Note| completed(n, now),
            ),
            res is Ok <==> has_note(old(self).notes(), id@),
            final(self).settings() == old(self).settings(),
            final(self).location() == old(self).location(),
            !completion_changes(old(self).notes(), id@, true) ==> final(self).notes() == old(self).notes(),
    {
        let i = match self.find_note(id) {
            Some(i) => i,
            None => {
                return Err(Self::not_found(id));
            },
        };
        let mut note = self.data.notes[i].snapshot();
        if note.completed_at.is_none() {
            note.completed_at = Some(now);
            note.touch_at(now);
        }
        let updated = note.snapshot();
        self.data.notes[i] = note;
        Ok(updated)
    }

    /// Marks the first note that carries the id as completed now.
    pub fn complete(&mut self, id: &str) -> (res: Result<Note, Error>)
        ensures
            edits_first_with_id(
                old(self).notes(),
                final(self).notes(),
                id@,
                res,
                |n: Note| completed(n, stamp_of(res)),
            ),
            res is Ok <==> has_note(old(self).notes(), id@),
            final(self).settings() == old(self).settings(),
            final(self).location() == old(self).location(),
            !completion_changes(old(self).notes(), id@, true) ==> final(self).notes() == old(self).notes(),
    {
        let now = now_millis();
        self.complete_at(id, now)
    }

    /// Marks the first note that carries the id as not completed at time
    /// `now`; a note that is not completed is left as it is.
    pub fn uncomplete_at(&mut self, id: &str, now: i64) -> (res: Result<Note, Error>)
        ensures
            edits_first_with_id(
                old(self).notes(),
                final(self).notes(),
                id@,
                res,
                |n: Note| uncompleted(n, now),
            ),
            res is Ok <==> has_note(old(self).notes(), id@),
            final(self).settings() == old(self).settings(),
            final(self).location() == old(self).location(),
            !completion_changes(old(self).notes(), id@, false) ==> final(self).notes() == old(self).notes(),
    {
        let i = match self.find_note(id) {
            Some(i) => i,
            None => {
                return Err(Self::not_found(id));
            },
        };
        let mut note = self.data.notes[i].snapshot();
        if note.completed_at.is_some() {
            note.completed_at = None;
            note.touch_at(now);
        }
        let updated = note.snapshot();
        self.data.notes[i] = note;
        Ok(updated)
    }

    /// Marks the first note that carries the id as not completed now.
    pub fn uncomplete(&mut self, id: &str) -> (res: Result<Note, Error>)
        ensures
            edits_first_with_id(
                old(self).notes(),
                final(self).notes(),
                id@,
                res,
                |n: Note| uncompleted(n, stamp_of(res)),
            ),
            res is Ok <==> has_note(old(self).notes(), id@),
            final(self).settings() == old(self).settings(),
            final(self).location() == old(self).location(),
            !completion_changes(old(self).notes(), id@, false) ==> final(self).notes() == old(self).notes(),
    {
        let now = now_millis();
        self.uncomplete_at(id, now)
    }

    /// Whether completing (`complete`) or marking not completed (otherwise)
    /// the note with the id would change anything; when it would not, the
    /// operation is a no-op and nothing needs saving.
    pub fn completion_would_change(&self, id: &str, complete: bool) -> (res: bool)
        ensures
            res == completion_changes(self.notes(), id@, complete),
    {
        match self.find_note(id) {
            Some(i) => {
                if complete {
                    self.data.notes[i].completed_at.is_none()
                } else {
                    self.data.notes[i].completed_at.is_some()
                }
            },
            None => false,
        }
    }

    /// Deletes every note that carries the id; an error when there is none.
    pub fn delete_note(&mut self, id: &str) -> (res: Result<(), Error>)
        ensures
            final(self).notes() == without_id(old(self).notes(), id@),
            final(self).notes() == old(self).notes().filter(other_id(id@)),
            res is Ok <==> has_note(old(self).notes(), id@),
            res matches Err(e) ==> final(self).notes() == old(self).notes() && (e matches Error::NotFound(m) && m@ == id@),
            final(self).settings() == old(self).settings(),
            final(self).location() == old(self).location(),
    {
        let ghost old_notes = self.notes();
        let key = String::from_str(id);
        let n = self.data.notes.len();
        let mut kept: Vec<Note> = Vec::new();
        let mut i: usize = 0;
        while i < n
            invariant
                n == old_notes.len(),
                old_notes == self.data.notes@,
                key@ == id@,
                i <= n,
                kept@ == without_id(old_notes.take(i as int), id@),
                kept@.len() <= i,
                (kept@.len() < i) == has_note(old_notes.take(i as int), id@),
                kept@.len() == i ==> kept@ == old_notes.take(i as int),
            decreases n - i,
        {
            let ghost prefix = old_notes.take(i as int);
            let ghost next = old_notes.take(i + 1);
            assert(next.drop_last() =~= prefix);
            assert(next.last() == old_notes[i as int]);
            if self.data.notes[i].id == key {
                assert(next[i as int].id@ == id@);
            } else {
                kept.push(self.data.notes[i].snapshot());
                assert(has_note(next, id@) ==> has_note(prefix, id@)) by {
                    if has_note(next, id@) {
                        let j = choose|j: int| 0 <= j < next.len() && (#[trigger] next[j]).id@ == id@;
                        assert(j < i);
                        assert(prefix[j] == next[j]);
                    }
                }
                assert(has_note(prefix, id@) ==> has_note(next, id@)) by {
                    if has_note(prefix, id@) {
                        let j = choose|j: int| 0 <= j < prefix.len() && (#[trigger] prefix[j]).id@ == id@;
                        assert(next[j] == prefix[j]);
                    }
                }
            }
            i = i + 1;
        }
        assert(old_notes.take(n as int) =~= old_notes);
        proof {
            delete_keeps_other_notes_in_order(old_notes, id@);
        }
        if kept.len() == n {
            Err(Self::not_found(id))
        } else {
            self.data.notes = kept;
            Ok(())
        }
    }

    /// A copy of the settings.
    pub fn get_config(&self) -> (res: Config)
        ensures
            res == self.settings(),
    {
        self.config.snapshot()
    }

    /// Applies a partial update to the settings and returns them.
    pub fn update_config(&mut self, patch: &ConfigPatch) -> (res: Config)
        ensures
            final(self).settings() == merged_config(old(self).settings(), *patch),
            res == final(self).settings(),
            final(self).notes() == old(self).notes(),
            final(self).location() == old(self).location(),
    {
        let auto_start = match patch.auto_start {
            Some(v) => v,
            None => self.config.auto_start,
        };
        let hotkey = match &patch.hotkey {
            Some(v) => v.clone(),
            None => self.config.hotkey.clone(),
        };
        let default_color = match patch.default_color {
            Some(v) => v,
            None => self.config.default_color,
        };
        let auto_backup = match patch.auto_backup {
            Some(v) => v,
            None => self.config.auto_backup,
        };
        let backup_keep = match patch.backup_keep {
            Some(v) => v,
            None => self.config.backup_keep,
        };
        let theme = match patch.theme {
            Some(v) => v,
            None => self.config.theme,
        };
        let close_action = match patch.close_action {
            Some(v) => v,
            None => self.config.close_action,
        };
        let always_on_top = match patch.always_on_top {
            Some(v) => v,
            None => self.config.always_on_top,
        };
        self.config = Config {
            auto_start,
            hotkey,
            default_color,
            auto_backup,
            backup_keep,
            theme,
            close_action,
            always_on_top,
        };
        self.config.snapshot()
    }

    /// Whether a note among the first `limit` carries the id.
    fn has_note_within(&self, key: &String, limit: usize) -> (res: bool)
        requires
            limit <= self.notes().len(),
        ensures
            res == has_note(self.notes().take(limit as int), key@),
    {
        let mut i: usize = 0;
        while i < limit
            invariant
                limit <= self.notes().len(),
                self.notes() == self.data.notes@,
                i <= limit,
                forall|j: int| 0 <= j < i ==> (#[trigger] self.notes()[j]).id@ != key@,
            decreases limit - i,
        {
            if self.data.notes[i].id == *key {
                assert(self.notes().take(limit as int)[i as int] == self.notes()[i as int]);
                return true;
            }
            i = i + 1;
        }
        proof {
            let p = self.notes().take(limit as int);
            if has_note(p, key@) {
                let j = choose|j: int| 0 <= j < p.len() && (#[trigger] p[j]).id@ == key@;
                assert(p[j] == self.notes()[j]);
            }
        }
        false
    }

    /// Adds, in their order, the incoming notes whose ids no note held so far
    /// carries (neither one held before the import nor one it added), and
    /// counts those added and those skipped.
    pub fn import_notes(&mut self, incoming: DataFile) -> (res: ImportResult)
        ensures
            final(self).notes() == old(self).notes() + new_notes(old(self).notes(), incoming.notes@),
            res.imported == new_notes(old(self).notes(), incoming.notes@).len(),
            ids_are_distinct(old(self).notes()) ==> ids_are_distinct(final(self).notes()),
            res.imported + res.skipped == incoming.notes@.len(),
            final(self).settings() == old(self).settings(),
            final(self).location() == old(self).location(),
    {
        let ghost old_notes = self.notes();
        let before = self.data.notes.len();
        let n = incoming.notes.len();
        let mut imported: usize = 0;
        let mut skipped: usize = 0;
        let mut i: usize = 0;
        while i < n
            invariant
                n == incoming.notes@.len(),
                before == old_notes.len(),
                self.notes() == self.data.notes@,
                self.notes() == old_notes + new_notes(old_notes, incoming.notes@.take(i as int)),
                imported == new_notes(old_notes, incoming.notes@.take(i as int)).len(),
                imported + skipped == i,
                i <= n,
                self.settings() == old(self).settings(),
                self.location() == old(self).location(),
            decreases n - i,
        {
            let ghost prefix = incoming.notes@.take(i as int);
            let ghost next = incoming.notes@.take(i + 1);
            assert(next.drop_last() =~= prefix);
            assert(next.last() == incoming.notes@[i as int]);
            assert(self.notes().take(before as int) =~= old_notes);
            let note = incoming.notes[i].snapshot();
            let held = self.data.notes.len();
            assert(self.notes().take(held as int) =~= self.notes());
            if self.has_note_within(&note.id, held) {
                skipped = skipped + 1;
            } else {
                self.data.notes.push(note);
                imported = imported + 1;
                assert(self.notes() =~= old_notes + new_notes(old_notes, next));
            }
            i = i + 1;
        }
        assert(incoming.notes@.take(n as int) =~= incoming.notes@);
        proof {
            lemma_new_notes(old_notes, incoming.notes@);
        }
        ImportResult { imported, skipped }
    }

    /// Retracts every pinned note at time `now` and returns the ids of the
    /// notes it retracted, in their order.
    pub fn retract_all_at(&mut self, now: i64) -> (res: Vec<String>)
        ensures
            final(self).notes().len() == old(self).notes().len(),
            forall|j: int|
                0 <= j < old(self).notes().len() ==> #[trigger] final(self).notes()[j] == if old(
                    self,
                ).notes()[j].pinned {
                    with_pinned(old(self).notes()[j], false, now)
                } else {
                    old(self).notes()[j]
                },
            forall|j: int| 0 <= j < final(self).notes().len() ==> !(#[trigger] final(self).notes()[j]).pinned,
            res@.len() == pinned_notes(old(self).notes()).len(),
            forall|k: int|
                0 <= k < res@.len() ==> #[trigger] res@[k]@ == pinned_notes(old(self).notes())[k].id@,
            res@.len() == old(self).notes().filter(|n: Note| n.pinned).len(),
            forall|k: int|
                0 <= k < res@.len() ==> #[trigger] res@[k]@ == old(self).notes().filter(
                    |n: Note| n.pinned,
                )[k].id@,
            final(self).settings() == old(self).settings(),
            final(self).location() == old(self).location(),
    {
        let ghost old_notes = self.notes();
        let n = self.data.notes.len();
        let mut ids: Vec<String> = Vec::new();
        let mut i: usize = 0;
        while i < n
            invariant
                n == old_notes.len(),
                self.notes() == self.data.notes@,
                self.notes().len() == n,
                i <= n,
                forall|j: int|
                    0 <= j < i ==> #[trigger] self.notes()[j] == if old_notes[j].pinned {
                        with_pinned(old_notes[j], false, now)
                    } else {
                        old_notes[j]
                    },
                forall|j: int| i <= j < n ==> #[trigger] self.notes()[j] == old_notes[j],
                ids@.len() == pinned_notes(old_notes.take(i as int)).len(),
                forall|k: int|
                    0 <= k < ids@.len() ==> #[trigger] ids@[k]@ == pinned_notes(
                        old_notes.take(i as int),
                    )[k].id@,
                self.settings() == old(self).settings(),
                self.location() == old(self).location(),
            decreases n - i,
        {
            let ghost next = old_notes.take(i + 1);
            assert(next.drop_last() =~= old_notes.take(i as int));
            assert(next.last() == old_notes[i as int]);
            if self.data.notes[i].pinned {
                ids.push(self.data.notes[i].id.clone());
                let mut note = self.data.notes[i].snapshot();
                note.pinned = false;
                note.touch_at(now);
                self.data.notes[i] = note;
            }
            i = i + 1;
        }
        assert(old_notes.take(n as int) =~= old_notes);
        proof {
            pinned_notes_are_the_pinned_ones(old_notes);
        }
        ids
    }

    /// Retracts every pinned note now and returns the ids of the notes it
    /// retracted, in their order.
    pub fn retract_all(&mut self) -> (res: Vec<String>)
        ensures
            final(self).notes().len() == old(self).notes().len(),
            forall|j: int|
                0 <= j < old(self).notes().len() ==> #[trigger] final(self).notes()[j] == if old(
                    self,
                ).notes()[j].pinned {
                    with_pinned(old(self).notes()[j], false, final(self).notes()[j].updated_at)
                } else {
                    old(self).notes()[j]
                },
            forall|j: int| 0 <= j < final(self).notes().len() ==> !(#[trigger] final(self).notes()[j]).pinned,
            res@.len() == pinned_notes(old(self).notes()).len(),
            forall|k: int|
                0 <= k < res@.len() ==> #[trigger] res@[k]@ == pinned_notes(old(self).notes())[k].id@,
            res@.len() == old(self).notes().filter(|n: Note| n.pinned).len(),
            forall|k: int|
                0 <= k < res@.len() ==> #[trigger] res@[k]@ == old(self).notes().filter(
                    |n: Note| n.pinned,
                )[k].id@,
            final(self).settings() == old(self).settings(),
            final(self).location() == old(self).location(),
    {
        let now = now_millis();
        let ids = self.retract_all_at(now);
        ids
    }

    /// Whether a save of the notes is followed by a backup, and how many
    /// backups to keep then: only when automatic backup is on.
    pub fn backup_after_save(&self) -> (res: Option<u32>)
        ensures
            res == (if self.settings().auto_backup {
                Some(self.settings().backup_keep)
            } else {
                None
            }),
    {
        if self.config.auto_backup {
            Some(self.config.backup_keep)
        } else {
            None
        }
    }
}

} // verus!
