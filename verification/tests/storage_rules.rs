use desknote::error::Error;
use desknote::storage::{
    after_write_attempt, backup_name, backups_to_remove, classify_read, is_backup_name, is_blank,
    newest_backups_first, preferred_dir, recovered_data, resolve_data_dir, BackupEntry, FileRead,
    FsPath, LoadStep, Storage, WriteStep, D_DRIVE_ROOT, SAVE_MAX_RETRIES, SAVE_RETRY_INTERVAL_MS,
};
use desknote::types::{Config, DataFile, Note};
use std::path::Path;

fn path(parts: &[&str]) -> FsPath {
    FsPath { parts: parts.iter().map(|p| p.to_string()).collect() }
}

fn entry(name: &str, modified: i128) -> BackupEntry {
    BackupEntry { name: Some(name.to_string()), modified }
}

#[test]
fn resolve_data_dir_prefers_d_drive_if_exists() {
    let d_drive = Path::new(D_DRIVE_ROOT);
    if d_drive.exists() {
        let resolved = resolve_data_dir(None, true).unwrap();
        assert_eq!(resolved.parts, preferred_dir().parts);
    }
}

#[test]
fn resolve_data_dir_falls_back_to_appdata() {
    let app_dir = path(&["/", "tmp", "app"]);
    let d_exists = Path::new(D_DRIVE_ROOT).exists();
    let resolved = resolve_data_dir(Some(path(&["/", "tmp", "app"])), d_exists).unwrap();
    if !d_exists {
        assert_eq!(resolved.parts, app_dir.parts);
    }
}

#[test]
fn resolve_data_dir_fallback_logic() {
    let app_dir = path(&["/", "tmp", "app"]);
    let d_exists = Path::new(D_DRIVE_ROOT).exists();
    let resolved = resolve_data_dir(Some(path(&["/", "tmp", "app"])), d_exists);
    if d_exists {
        assert_eq!(resolved.unwrap().parts, preferred_dir().parts);
    } else {
        assert_eq!(resolved.unwrap().parts, app_dir.parts);
    }
}

#[test]
fn resolve_data_dir_cases() {
    assert_eq!(
        resolve_data_dir(None, true).unwrap().parts,
        vec!["D:\\".to_string(), "ProgramData".to_string(), "notes_data".to_string()]
    );
    assert_eq!(resolve_data_dir(Some(path(&["x"])), true).unwrap().parts, preferred_dir().parts);
    assert_eq!(resolve_data_dir(Some(path(&["x"])), false).unwrap().parts, vec!["x".to_string()]);
    match resolve_data_dir(None, false) {
        Err(Error::Path(m)) => assert_eq!(m, "Tauri appDataDir 不可用且 D 盘不存在"),
        _ => panic!("expected a path error"),
    }
    match Storage::new(None, false) {
        Err(Error::Path(m)) => assert_eq!(m, "Tauri appDataDir 不可用且 D 盘不存在"),
        _ => panic!("expected a path error"),
    }
}

#[test]
fn storage_paths() {
    let storage = Storage::new(Some(path(&["/", "data"])), false).unwrap();
    assert_eq!(storage.data_dir().parts, vec!["/", "data"]);
    assert_eq!(storage.data_path().parts, vec!["/", "data", "data.json"]);
    assert_eq!(storage.config_path().parts, vec!["/", "data", "config.json"]);
    assert_eq!(storage.backup_dir().parts, vec!["/", "data", "backups"]);
    assert_eq!(
        storage.backup_path("20240101-120000.000").parts,
        vec!["/", "data", "backups", "data-20240101-120000.000.json"]
    );
    let next = storage.next_backup_path();
    assert_eq!(next.parts.len(), 4);
    let name = &next.parts[3];
    assert!(is_backup_name(name));
    // data-YYYYmmdd-HHMMSS.fff.json
    assert_eq!(name.len(), "data-".len() + 19 + ".json".len());
    let stamp = &name["data-".len()..name.len() - ".json".len()];
    for (i, ch) in stamp.chars().enumerate() {
        match i {
            8 => assert_eq!(ch, '-'),
            15 => assert_eq!(ch, '.'),
            _ => assert!(ch.is_ascii_digit()),
        }
    }
}

#[test]
fn backup_names() {
    assert_eq!(backup_name("X"), "data-X.json");
    assert!(is_backup_name("data-20240101-000000.000.json"));
    assert!(is_backup_name("data-.json"));
    assert!(!is_backup_name("data.json"));
    assert!(!is_backup_name("config.json"));
    assert!(!is_backup_name("data-1.json.bak"));
    assert!(!is_backup_name("backup-1.json"));
    assert!(!is_backup_name("data"));
}

#[test]
fn load_data_missing_file_returns_default() {
    let step = classify_read(FileRead::Missing);
    assert!(matches!(step, LoadStep::UseDefault));
    let data = DataFile::default();
    assert!(data.notes.is_empty());
}

#[test]
fn load_config_missing_file_returns_default() {
    let step = classify_read(FileRead::Missing);
    assert!(matches!(step, LoadStep::UseDefault));
    let config = Config::default();
    assert_eq!(config.hotkey, "Ctrl+Alt+N");
}

#[test]
fn read_files_are_classified() {
    assert!(matches!(classify_read(FileRead::Text("  \n\t\u{3000}".to_string())), LoadStep::UseDefault));
    assert!(matches!(classify_read(FileRead::Text(String::new())), LoadStep::UseDefault));
    match classify_read(FileRead::Text(" {\"notes\": []}".to_string())) {
        LoadStep::Decode(t) => assert_eq!(t, " {\"notes\": []}"),
        _ => panic!("expected text to decode"),
    }
    match classify_read(FileRead::Unreadable("denied".to_string())) {
        LoadStep::Fail(Error::Io(m)) => assert_eq!(m, "denied"),
        _ => panic!("expected an I/O error"),
    }
    assert!(is_blank(" \u{a0}\u{2028}"));
    assert!(!is_blank(" x "));
}

#[test]
fn load_data_restores_from_backup_when_corrupted() {
    let mut backup = DataFile::default();
    backup.notes.push(Note::new());

    let content = "{ corrupted json !!!".to_string();
    let text = match classify_read(FileRead::Text(content)) {
        LoadStep::Decode(t) => t,
        _ => panic!("corrupted text must be decoded"),
    };
    let err = serde_json::from_str::<serde_json::Value>(&text).unwrap_err();

    let entries = vec![entry("data-1.json", 100)];
    let order = newest_backups_first(&entries);
    assert_eq!(order, vec![0]);

    let restored = recovered_data(err.to_string(), Some(backup)).unwrap();
    assert_eq!(restored.notes.len(), 1);
}

#[test]
fn corrupted_data_without_backup_is_a_path_error() {
    match recovered_data("bad".to_string(), None) {
        Err(Error::Path(m)) => assert_eq!(m, "data.json 损坏且无可用备份: bad"),
        _ => panic!("expected a path error"),
    }
}

#[test]
fn backups_are_ordered_newest_first() {
    let entries = vec![
        entry("data-a.json", 10),
        entry("notes.txt", 99),
        entry("data-b.json", 30),
        BackupEntry { name: None, modified: 50 },
        entry("data-c.json", 10),
        entry("data-d.json", 20),
    ];
    assert_eq!(newest_backups_first(&entries), vec![2, 5, 0, 4]);
}

#[test]
fn backup_creates_file_and_cleans_old() {
    let entries = vec![
        entry("data-20240101-000000.010.json", 10),
        entry("data-20240101-000000.020.json", 20),
        entry("data-20240101-000000.030.json", 30),
    ];
    let removed = backups_to_remove(&entries, 2);
    assert_eq!(removed, vec![0]);
    assert_eq!(entries.len() - removed.len(), 2);
}

#[test]
fn retention_edge_cases() {
    let entries = vec![entry("data-1.json", 1), entry("data-2.json", 2), entry("other", 0)];
    assert_eq!(backups_to_remove(&entries, 0), vec![1, 0]);
    assert_eq!(backups_to_remove(&entries, 5), Vec::<usize>::new());
    assert_eq!(backups_to_remove(&Vec::new(), 5), Vec::<usize>::new());
}

#[test]
fn write_retries_then_gives_up() {
    assert_eq!(SAVE_MAX_RETRIES, 3);
    assert!(matches!(after_write_attempt(1, Ok(())), WriteStep::Done));
    assert!(matches!(after_write_attempt(3, Ok(())), WriteStep::Done));
    match after_write_attempt(1, Err(Error::Io("e1".to_string()))) {
        WriteStep::RetryAfter(ms) => assert_eq!(ms, SAVE_RETRY_INTERVAL_MS),
        _ => panic!("expected a retry"),
    }
    assert!(matches!(after_write_attempt(2, Err(Error::Io("e2".to_string()))), WriteStep::RetryAfter(100)));
    match after_write_attempt(3, Err(Error::Io("e3".to_string()))) {
        WriteStep::GiveUp(Error::Io(m)) => assert_eq!(m, "e3"),
        _ => panic!("expected to give up"),
    }
}
