use desknote::error::Error;
use desknote::state::{AppState, ConfigPatch, ImportResult, UpdateNoteFields};
use desknote::storage::{FsPath, Storage};
use desknote::types::{Config, DataFile, Note, NoteColor, Theme};

fn make_state() -> AppState {
    let storage = Storage::at(FsPath { parts: vec!["/".to_string(), "notes".to_string()] });
    AppState::from_storage(storage, DataFile::default(), Config::default())
}

fn wait_past(millis: i64) {
    while chrono::Utc::now().timestamp_millis() <= millis {}
}

fn no_fields() -> UpdateNoteFields {
    UpdateNoteFields {
        title: None,
        content: None,
        color: None,
        width: None,
        height: None,
        x: None,
        y: None,
        monitor: None,
    }
}

#[test]
fn create_note_persists_and_returns() {
    let mut state = make_state();
    let note = state.create_note("T1".into(), "C1".into(), NoteColor::Yellow);
    assert_eq!(note.title, "T1");
    assert_eq!(state.list_notes().len(), 1);

    let saved = state.data_file();
    assert_eq!(saved.notes.len(), 1);
    assert_eq!(saved.notes[0].title, "T1");
}

#[test]
fn update_note_partial_fields() {
    let mut state = make_state();
    let note = state.create_note("T".into(), "C".into(), NoteColor::Yellow);

    let fields = UpdateNoteFields {
        title: Some("New".into()),
        content: None,
        color: Some(NoteColor::Pink),
        width: None,
        height: None,
        x: Some(200),
        y: None,
        monitor: None,
    };
    let updated = state.update_note(&note.id, &fields).unwrap();
    assert_eq!(updated.title, "New");
    assert_eq!(updated.color, NoteColor::Pink);
    assert_eq!(updated.x, 200);
    assert_eq!(updated.content, "C");
    assert_eq!(updated.height, 240);
}

#[test]
fn update_note_not_found() {
    let mut state = make_state();
    let fields = UpdateNoteFields { title: Some("X".into()), ..no_fields() };
    assert!(state.update_note("nonexistent", &fields).is_err());
}

#[test]
fn delete_note_removes_and_persists() {
    let mut state = make_state();
    let n1 = state.create_note("A".into(), "".into(), NoteColor::Yellow);
    let _n2 = state.create_note("B".into(), "".into(), NoteColor::Pink);

    state.delete_note(&n1.id).unwrap();
    assert_eq!(state.list_notes().len(), 1);
    assert_eq!(state.list_notes()[0].title, "B");
}

#[test]
fn set_pinned_toggles_state() {
    let mut state = make_state();
    let note = state.create_note("T".into(), "".into(), NoteColor::Yellow);
    assert!(!note.pinned);

    let pinned = state.set_pinned(&note.id, true).unwrap();
    assert!(pinned.pinned);

    let unpinned = state.set_pinned(&note.id, false).unwrap();
    assert!(!unpinned.pinned);
}

#[test]
fn complete_sets_timestamp_and_persists() {
    let mut state = make_state();
    let note = state.create_note("T".into(), "".into(), NoteColor::Yellow);
    assert!(note.completed_at.is_none());

    wait_past(note.created_at + 4);
    let completed = state.complete(&note.id).unwrap();
    assert!(completed.completed_at.is_some());
    assert!(completed.completed_at.unwrap() > note.created_at);
    assert_eq!(completed.updated_at, completed.completed_at.unwrap());

    let completed2 = state.complete(&note.id).unwrap();
    assert_eq!(completed2.completed_at, completed.completed_at);

    let saved = state.data_file();
    assert_eq!(saved.notes.len(), 1);
    assert_eq!(saved.notes[0].completed_at, completed.completed_at);
}

#[test]
fn uncomplete_clears_timestamp() {
    let mut state = make_state();
    let note = state.create_note("T".into(), "".into(), NoteColor::Yellow);

    let completed = state.complete(&note.id).unwrap();
    assert!(completed.completed_at.is_some());

    wait_past(completed.updated_at + 4);
    let uncompleted = state.uncomplete(&note.id).unwrap();
    assert!(uncompleted.completed_at.is_none());
    assert!(uncompleted.updated_at > completed.updated_at);

    assert!(state.uncomplete(&note.id).is_ok());
}

#[test]
fn complete_not_found_returns_err() {
    let mut state = make_state();
    assert!(state.complete("nope").is_err());
    assert!(state.uncomplete("nope").is_err());
}

#[test]
fn update_config_partial_merge() {
    let mut state = make_state();
    let original = state.get_config();
    assert_eq!(original.hotkey, "Ctrl+Alt+N");

    let partial = ConfigPatch {
        auto_start: None,
        hotkey: Some("Ctrl+Shift+N".to_string()),
        default_color: None,
        auto_backup: None,
        backup_keep: None,
        theme: None,
        close_action: None,
        always_on_top: None,
    };
    let updated = state.update_config(&partial);
    assert_eq!(updated.hotkey, "Ctrl+Shift+N");
    assert_eq!(updated.theme, original.theme);
    assert_eq!(updated.auto_backup, original.auto_backup);
}

#[test]
fn export_then_import_roundtrip() {
    let mut state = make_state();
    state.create_note("A".into(), "content a".into(), NoteColor::Yellow);
    state.create_note("B".into(), "content b".into(), NoteColor::Pink);

    let exported = DataFile { notes: state.list_notes() };

    let mut state2 = make_state();
    assert_eq!(state2.list_notes().len(), 0);

    let result = state2.import_notes(exported);
    assert_eq!(result.imported, 2);
    assert_eq!(result.skipped, 0);
    assert_eq!(state2.list_notes().len(), 2);
}

#[test]
fn import_skips_existing_ids() {
    let mut state = make_state();
    let n = state.create_note("A".into(), "old".into(), NoteColor::Yellow);

    let mut import_data = DataFile::default();
    let mut dup = n.clone();
    dup.content = "new".into();
    import_data.notes.push(dup);
    import_data.notes.push(Note::new());

    let result = state.import_notes(import_data);
    assert_eq!(result.imported, 1);
    assert_eq!(result.skipped, 1);
    assert_eq!(state.list_notes().len(), 2);
}

#[test]
fn auto_backup_creates_backup_after_save() {
    let mut state = make_state();
    state.create_note("T".into(), "C".into(), NoteColor::Yellow);
    assert_eq!(state.backup_after_save(), Some(5));
}

#[test]
fn config_update_applied_twice_equals_once() {
    let mut state = make_state();
    let patch = ConfigPatch {
        auto_start: Some(true),
        hotkey: None,
        default_color: Some(NoteColor::Green),
        auto_backup: None,
        backup_keep: Some(3),
        theme: None,
        close_action: Some(desknote::types::CloseAction::Quit),
        always_on_top: Some(false),
    };
    let once = state.update_config(&patch);
    let twice = state.update_config(&patch);
    assert_eq!(once.auto_start, twice.auto_start);
    assert_eq!(once.default_color, twice.default_color);
    assert_eq!(once.backup_keep, 3);
    assert_eq!(twice.backup_keep, 3);
    assert_eq!(twice.close_action, desknote::types::CloseAction::Quit);
    assert!(!twice.always_on_top);
    assert_eq!(twice.hotkey, "Ctrl+Alt+N");
}

#[test]
fn backup_is_skipped_when_auto_backup_is_off() {
    let mut state = make_state();
    let patch = ConfigPatch {
        auto_start: None,
        hotkey: None,
        default_color: None,
        auto_backup: Some(false),
        backup_keep: Some(9),
        theme: None,
        close_action: None,
        always_on_top: None,
    };
    state.update_config(&patch);
    assert_eq!(state.backup_after_save(), None);
}

#[test]
fn update_keeps_other_fields_and_touches() {
    let mut state = make_state();
    let note = state.create_note("T".into(), "C".into(), NoteColor::Blue);
    let fields = UpdateNoteFields { monitor: Some("DISPLAY2".into()), width: Some(300), y: Some(-5), ..no_fields() };
    let updated = state.update_note_at(&note.id, &fields, 77).unwrap();
    assert_eq!(updated.monitor, "DISPLAY2");
    assert_eq!(updated.width, 300);
    assert_eq!(updated.y, -5);
    assert_eq!(updated.height, 240);
    assert_eq!(updated.x, 100);
    assert_eq!(updated.title, "T");
    assert_eq!(updated.color, NoteColor::Blue);
    assert_eq!(updated.updated_at, 77);
    assert_eq!(updated.created_at, note.created_at);
    assert_eq!(state.list_notes()[0].monitor, "DISPLAY2");
}

#[test]
fn empty_update_only_changes_time() {
    let mut state = make_state();
    let note = state.create_note("T".into(), "C".into(), NoteColor::Green);
    let updated = state.update_note_at(&note.id, &no_fields(), 5).unwrap();
    assert_eq!(updated.title, note.title);
    assert_eq!(updated.content, note.content);
    assert_eq!(updated.color, note.color);
    assert_eq!(updated.id, note.id);
    assert_eq!(updated.updated_at, 5);
}

#[test]
fn not_found_error_names_the_id() {
    let mut state = make_state();
    match state.set_pinned("missing-id", true) {
        Err(Error::NotFound(id)) => assert_eq!(id, "missing-id"),
        other => panic!("unexpected {:?}", other),
    }
    match state.delete_note("missing-id") {
        Err(Error::NotFound(id)) => assert_eq!(id, "missing-id"),
        other => panic!("unexpected {:?}", other),
    }
}

#[test]
fn complete_is_idempotent_at_fixed_times() {
    let mut state = make_state();
    let note = state.create_note("T".into(), "".into(), NoteColor::Yellow);
    state.set_pinned_at(&note.id, true, 500).unwrap();
    let first = state.complete_at(&note.id, 1000).unwrap();
    assert!(first.pinned);
    assert_eq!(first.completed_at, Some(1000));
    assert_eq!(first.updated_at, 1000);
    let second = state.complete_at(&note.id, 2000).unwrap();
    assert_eq!(second.completed_at, Some(1000));
    assert_eq!(second.updated_at, 1000);
    let undone = state.uncomplete_at(&note.id, 3000).unwrap();
    assert_eq!(undone.completed_at, None);
    assert_eq!(undone.updated_at, 3000);
    let undone2 = state.uncomplete_at(&note.id, 4000).unwrap();
    assert_eq!(undone2.updated_at, 3000);
    assert!(undone2.pinned);
    assert_eq!(undone2.title, "T");
}

#[test]
fn pinning_twice_last_wins() {
    let mut state = make_state();
    let note = state.create_note("T".into(), "".into(), NoteColor::Yellow);
    state.set_pinned_at(&note.id, true, 10).unwrap();
    let last = state.set_pinned_at(&note.id, false, 20).unwrap();
    assert!(!last.pinned);
    assert_eq!(last.updated_at, 20);
    assert_eq!(last.title, "T");
}

#[test]
fn delete_removes_every_note_with_the_id() {
    let keep = Note::new();
    let target = Note::new();
    let mut dup = target.clone();
    dup.title = "X2".into();
    let mut state = AppState::from_storage(
        Storage::at(FsPath { parts: vec!["/".to_string()] }),
        DataFile { notes: vec![target.clone(), keep.clone(), dup.clone()] },
        Config::default(),
    );
    let result = state.import_notes(DataFile { notes: vec![dup] });
    assert_eq!(result, ImportResult { imported: 0, skipped: 1 });
    state.delete_note(&target.id).unwrap();
    let notes = state.list_notes();
    assert_eq!(notes.len(), 1);
    assert_eq!(notes[0].id, keep.id);
    assert!(state.delete_note(&target.id).is_err());
}

#[test]
fn import_twice_imports_nothing_more() {
    let mut source = make_state();
    source.create_note("A".into(), "".into(), NoteColor::Yellow);
    source.create_note("B".into(), "".into(), NoteColor::Yellow);
    let mut state = make_state();
    let first = state.import_notes(DataFile { notes: source.list_notes() });
    assert_eq!(first, ImportResult { imported: 2, skipped: 0 });
    let second = state.import_notes(DataFile { notes: source.list_notes() });
    assert_eq!(second, ImportResult { imported: 0, skipped: 2 });
    assert_eq!(state.list_notes().len(), 2);
}

#[test]
fn import_skips_ids_repeated_within_one_file() {
    let mut state = make_state();
    let n = Note::new();
    let mut again = n.clone();
    again.title = "again".into();
    let other = Note::new();
    let result = state.import_notes(DataFile { notes: vec![n.clone(), again, other.clone()] });
    assert_eq!(result, ImportResult { imported: 2, skipped: 1 });
    let notes = state.list_notes();
    assert_eq!(notes.len(), 2);
    assert_eq!(notes[0].id, n.id);
    assert_eq!(notes[0].title, n.title);
    assert_eq!(notes[1].id, other.id);
}

#[test]
fn requested_note_takes_default_colour() {
    let mut state = make_state();
    let patch = ConfigPatch {
        auto_start: None,
        hotkey: None,
        default_color: Some(NoteColor::Purple),
        auto_backup: None,
        backup_keep: None,
        theme: Some(Theme::Dark),
        close_action: None,
        always_on_top: None,
    };
    state.update_config(&patch);
    let plain = state.create_requested_note(None, None, None);
    assert_eq!(plain.color, NoteColor::Purple);
    assert_eq!(plain.title, "");
    assert_eq!(plain.content, "");
    let chosen = state.create_requested_note(Some("t".into()), Some("c".into()), Some(NoteColor::Cream));
    assert_eq!(chosen.color, NoteColor::Cream);
    assert_eq!(chosen.title, "t");
    assert_eq!(chosen.content, "c");
    assert_eq!(state.get_config().theme, Theme::Dark);
}

#[test]
fn retract_all_unpins_every_pinned_note() {
    let mut state = make_state();
    let a = state.create_note("A".into(), "".into(), NoteColor::Yellow);
    let b = state.create_note("B".into(), "".into(), NoteColor::Yellow);
    let c = state.create_note("C".into(), "".into(), NoteColor::Yellow);
    state.set_pinned_at(&c.id, true, 10).unwrap();
    state.set_pinned_at(&a.id, true, 10).unwrap();
    let ids = state.retract_all_at(50);
    assert_eq!(ids, vec![a.id.clone(), c.id.clone()]);
    let notes = state.list_notes();
    assert!(notes.iter().all(|n| !n.pinned));
    assert_eq!(notes[0].updated_at, 50);
    assert_eq!(notes[1].updated_at, b.updated_at);
    assert_eq!(notes[2].updated_at, 50);
    assert!(state.retract_all().is_empty());
}

#[test]
fn retract_all_with_a_shared_id_unpins_both() {
    let n = Note::new();
    let mut first = n.clone();
    first.pinned = true;
    let mut second = n.clone();
    second.pinned = true;
    second.title = "second".into();
    let mut state = AppState::from_storage(
        Storage::at(FsPath { parts: vec!["/".to_string()] }),
        DataFile { notes: vec![first, second] },
        Config::default(),
    );
    let ids = state.retract_all();
    assert_eq!(ids.len(), 2);
    let notes = state.list_notes();
    assert!(!notes[0].pinned);
    assert!(!notes[1].pinned);
}

#[test]
fn completion_no_op_is_reported() {
    let mut state = make_state();
    let note = state.create_note("T".into(), "".into(), NoteColor::Yellow);
    assert!(!state.completion_would_change(&note.id, false));
    assert!(state.completion_would_change(&note.id, true));
    state.complete_at(&note.id, 7).unwrap();
    assert!(!state.completion_would_change(&note.id, true));
    assert!(state.completion_would_change(&note.id, false));
    assert!(!state.completion_would_change("missing", true));
}
