use desknote::events::event_name;
use desknote::events::note_window_label;
use desknote::types::{default_true, CloseAction, Config, Note, NoteColor, Theme};

fn wait_past(millis: i64) {
    while chrono::Utc::now().timestamp_millis() <= millis {}
}

#[test]
fn note_new_has_valid_uuid() {
    let n = Note::new();
    assert!(uuid::Uuid::parse_str(&n.id).is_ok());
}

#[test]
fn note_new_defaults() {
    let n = Note::new();
    assert_eq!(n.title, "");
    assert_eq!(n.content, "");
    assert_eq!(n.color, NoteColor::Yellow);
    assert_eq!(n.width, 240);
    assert_eq!(n.height, 240);
    assert_eq!(n.pinned, false);
    assert_eq!(n.created_at, n.updated_at);
}

#[test]
fn note_touch_updates_timestamp() {
    let mut n = Note::new();
    let original = n.updated_at;
    wait_past(original + 4);
    n.touch();
    assert!(n.updated_at > original);
}

#[test]
fn color_serialization() {
    assert_eq!(serde_json::to_string(NoteColor::Yellow.name()).unwrap(), "\"yellow\"");
    let text: String = serde_json::from_str("\"pink\"").unwrap();
    let c = NoteColor::from_name(&text);
    assert_eq!(c, NoteColor::Pink);
}

#[test]
fn color_orange_backcompat() {
    let text: String = serde_json::from_str("\"orange\"").unwrap();
    let c = NoteColor::from_name(&text);
    assert_eq!(c, NoteColor::Cream);
    assert_eq!(serde_json::to_string(NoteColor::Cream.name()).unwrap(), "\"cream\"");
}

#[test]
fn config_default_hotkey() {
    let c = Config::default();
    assert_eq!(c.hotkey, "Ctrl+Alt+N");
    assert_eq!(c.close_action, CloseAction::Tray);
    assert!(c.auto_backup);
    assert_eq!(c.backup_keep, 5);
}

#[test]
fn config_defaults_complete() {
    let c = Config::default();
    assert!(!c.auto_start);
    assert_eq!(c.default_color, NoteColor::Yellow);
    assert_eq!(c.theme, Theme::System);
    assert!(c.always_on_top);
    assert!(default_true());
}

#[test]
fn color_names_round_trip() {
    for c in [
        NoteColor::Yellow,
        NoteColor::Pink,
        NoteColor::Green,
        NoteColor::Blue,
        NoteColor::Purple,
        NoteColor::Cream,
    ] {
        assert_eq!(NoteColor::from_lowercase_name(c.name()), c);
        assert_eq!(NoteColor::from_name(c.name()), c);
    }
    assert_eq!(NoteColor::Purple.name(), "purple");
}

#[test]
fn color_names_ignore_case_and_default_to_yellow() {
    assert_eq!(NoteColor::from_name("PINK"), NoteColor::Pink);
    assert_eq!(NoteColor::from_name("Orange"), NoteColor::Cream);
    assert_eq!(NoteColor::from_name("Green"), NoteColor::Green);
    assert_eq!(NoteColor::from_name("magenta"), NoteColor::Yellow);
    assert_eq!(NoteColor::from_name(""), NoteColor::Yellow);
    assert_eq!(NoteColor::from_lowercase_name("PINK"), NoteColor::Yellow);
    assert_eq!(NoteColor::from_lowercase_name("orange"), NoteColor::Cream);
    assert_eq!(NoteColor::default(), NoteColor::Yellow);
}

#[test]
fn new_note_from_fixed_uuid_bytes() {
    let bytes: [u8; 16] = [
        0x12, 0x34, 0x56, 0x78, 0x9a, 0xbc, 0x4d, 0xef, 0x8f, 0xed, 0xcb, 0xa9, 0x87, 0x65, 0x43,
        0x21,
    ];
    let n = Note::new_from(bytes, 1_700_000_000_123);
    assert_eq!(n.id, "12345678-9abc-4def-8fed-cba987654321");
    assert_eq!(n.created_at, 1_700_000_000_123);
    assert_eq!(n.updated_at, 1_700_000_000_123);
    // 0x12345678 = 305419896; 305419896 % 1601 = 328; 328 - 800 = -472
    assert_eq!(n.rotation_milli, -472);
    assert_eq!(n.x, 100);
    assert_eq!(n.y, 100);
    assert_eq!(n.monitor, "");
    assert_eq!(n.completed_at, None);
}

#[test]
fn new_note_tilt_extremes() {
    let zero = Note::new_from([0u8; 16], 0);
    assert_eq!(zero.rotation_milli, -800);
    assert_eq!(zero.id, "00000000-0000-0000-0000-000000000000");
    // 1600 = 0x640 gives the largest tilt
    let mut top = [0u8; 16];
    top[2] = 0x06;
    top[3] = 0x40;
    assert_eq!(Note::new_from(top, 0).rotation_milli, 800);
    // u32::MAX % 1601 = 1418
    let ones = Note::new_from([0xffu8; 16], 0);
    assert_eq!(ones.rotation_milli, 618);
    assert_eq!(ones.id, "ffffffff-ffff-ffff-ffff-ffffffffffff");
}

#[test]
fn new_note_ids_are_random_v4() {
    let a = Note::new();
    let b = Note::new();
    assert_ne!(a.id, b.id);
    let parsed = uuid::Uuid::parse_str(&a.id).unwrap();
    assert_eq!(parsed.get_version_num(), 4);
    assert_eq!(a.id.len(), 36);
    assert!(a.rotation_milli >= -800 && a.rotation_milli <= 800);
}

#[test]
fn touch_at_sets_only_the_time() {
    let mut n = Note::new_from([7u8; 16], 10);
    n.touch_at(99);
    assert_eq!(n.updated_at, 99);
    assert_eq!(n.created_at, 10);
}

#[test]
fn snapshot_copies_every_field() {
    let mut n = Note::new();
    n.title = "t".into();
    n.completed_at = Some(3);
    let s = n.snapshot();
    assert_eq!(s.id, n.id);
    assert_eq!(s.title, "t");
    assert_eq!(s.completed_at, Some(3));
    assert_eq!(s.rotation_milli, n.rotation_milli);
}

#[test]
fn event_names_and_window_labels() {
    assert_eq!(event_name::NOTE_CREATED, "note:created");
    assert_eq!(event_name::NOTE_UNPINNED, "note:unpinned");
    assert_eq!(event_name::STORAGE_ERROR, "storage:error");
    assert_eq!(event_name::TRAY_NEW_NOTE, "tray:new-note");
    assert_eq!(note_window_label("abc"), "note-abc");
}
