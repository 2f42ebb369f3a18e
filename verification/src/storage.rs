//! Storage layout and the rules of the storage layer: where the data lives,
//! how a data or settings file that was read is interpreted, which backups
//! are restored from or removed, and how often a failed write is retried.
//! The reads, writes and directory listings themselves are done by the
//! caller, which hands the outcomes to the functions here.

use vstd::prelude::*;

use crate::error::Error;
use crate::platform::{is_backup_stamp, utc_now_formatted, BACKUP_STAMP_FORMAT};
use crate::types::DataFile;

verus! {

/// A file-system path, as the sequence of its components (a root or drive
/// prefix, if any, first). Joining a plain file name appends a component.
#[derive(Debug)]
pub struct FsPath {
    pub parts: Vec<String>,
}

impl View for FsPath {
    type V = Seq<Seq<char>>;

    open spec fn view(&self) -> Seq<Seq<char>> {
        self.parts@.map_values(|p: String| p@)
    }
}

impl FsPath {
    /// The path with one more component.
    pub fn join(&self, name: &str) -> (res: FsPath)
        ensures
            res@ == self@.push(name@),
    {
        let mut parts: Vec<String> = Vec::new();
        let n = self.parts.len();
        let mut i: usize = 0;
        while i < n
            invariant
                n == self.parts@.len(),
                i <= n,
                parts@.len() == i,
                forall|j: int| 0 <= j < i ==> #[trigger] parts@[j] == self.parts@[j],
            decreases n - i,
        {
            parts.push(self.parts[i].clone());
            i = i + 1;
        }
        parts.push(String::from_str(name));
        let res = FsPath { parts };
        assert(res@ =~= self@.push(name@));
        res
    }
}

/// Unicode `White_Space` characters, those that `str::trim` strips.
pub open spec fn is_white_space(c: char) -> bool {
    ||| '\u{9}' <= c <= '\u{d}'
    ||| c == ' '
    ||| c == '\u{85}'
    ||| c == '\u{a0}'
    ||| c == '\u{1680}'
    ||| '\u{2000}' <= c <= '\u{200a}'
    ||| c == '\u{2028}'
    ||| c == '\u{2029}'
    ||| c == '\u{202f}'
    ||| c == '\u{205f}'
    ||| c == '\u{3000}'
}

/// A text that is empty once trimmed.
pub open spec fn is_blank_text(s: Seq<char>) -> bool {
    forall|i: int| 0 <= i < s.len() ==> is_white_space(#[trigger] s[i])
}

pub fn is_white_space_char(c: char) -> (res: bool)
    ensures
        res == is_white_space(c),
{
    ('\u{9}' <= c && c <= '\u{d}') || c == ' ' || c == '\u{85}' || c == '\u{a0}' || c
        == '\u{1680}' || ('\u{2000}' <= c && c <= '\u{200a}') || c == '\u{2028}' || c
        == '\u{2029}' || c == '\u{202f}' || c == '\u{205f}' || c == '\u{3000}'
}

/// Whether a text holds nothing but white space.
pub fn is_blank(s: &str) -> (res: bool)
    ensures
        res == is_blank_text(s@),
{
    for c in it: s.chars()
        invariant
            it.seq() == s@,
            forall|i: int| 0 <= i < it.index() ==> is_white_space(#[trigger] s@[i]),
    {
        if !is_white_space_char(c) {
            return false;
        }
    }
    true
}

/// File name of the notes data.
pub open spec fn data_file_name() -> Seq<char> {
    seq!['d', 'a', 't', 'a', '.', 'j', 's', 'o', 'n']
}

/// File name of the settings.
pub open spec fn config_file_name() -> Seq<char> {
    seq!['c', 'o', 'n', 'f', 'i', 'g', '.', 'j', 's', 'o', 'n']
}

/// Name of the backup directory inside the data directory.
pub open spec fn backup_dir_name() -> Seq<char> {
    seq!['b', 'a', 'c', 'k', 'u', 'p', 's']
}

/// The prefix of every backup file name.
pub open spec fn backup_prefix() -> Seq<char> {
    seq!['d', 'a', 't', 'a', '-']
}

/// The suffix of every backup file name.
pub open spec fn backup_suffix() -> Seq<char> {
    seq!['.', 'j', 's', 'o', 'n']
}

/// The components of the preferred data directory,
/// `D:\ProgramData\notes_data`.
pub open spec fn preferred_dir_parts() -> Seq<Seq<char>> {
    seq![
        seq!['D', ':', '\\'],
        seq!['P', 'r', 'o', 'g', 'r', 'a', 'm', 'D', 'a', 't', 'a'],
        seq!['n', 'o', 't', 'e', 's', '_', 'd', 'a', 't', 'a'],
    ]
}

/// The root of drive D, whose presence selects the preferred directory.
pub const D_DRIVE_ROOT: &'static str = "D:\\";

/// The preferred data directory, `D:\ProgramData\notes_data`.
pub fn preferred_dir() -> (res: FsPath)
    ensures
        res@ == preferred_dir_parts(),
{
    proof {
        reveal_strlit("D:\\");
        reveal_strlit("ProgramData");
        reveal_strlit("notes_data");
        assert("D:\\"@ =~= preferred_dir_parts()[0]);
        assert("ProgramData"@ =~= preferred_dir_parts()[1]);
        assert("notes_data"@ =~= preferred_dir_parts()[2]);
    }
    let mut parts: Vec<String> = Vec::new();
    parts.push(String::from_str("D:\\"));
    parts.push(String::from_str("ProgramData"));
    parts.push(String::from_str("notes_data"));
    let res = FsPath { parts };
    assert(res@ =~= preferred_dir_parts());
    res
}

/// The message of the error when there is no data directory.
pub open spec fn no_data_dir_message() -> Seq<char> {
    "Tauri appDataDir 不可用且 D 盘不存在"@
}

/// The data directory: the preferred directory when drive D exists,
/// otherwise the application data directory of the platform; an error when
/// there is neither.
pub fn resolve_data_dir(app_data_dir: Option<FsPath>, d_drive_exists: bool) -> (res: Result<
    FsPath,
    Error,
>)
    ensures
        d_drive_exists ==> (res matches Ok(p) && p@ == preferred_dir_parts()),
        !d_drive_exists ==> match app_data_dir {
            Some(dir) => res matches Ok(p) && p@ == dir@,
            None => res matches Err(Error::Path(m)) && m@ == no_data_dir_message(),
        },
{
    if d_drive_exists {
        Ok(preferred_dir())
    } else {
        match app_data_dir {
            Some(dir) => Ok(dir),
            None => Err(Error::Path(String::from_str("Tauri appDataDir 不可用且 D 盘不存在"))),
        }
    }
}

/// The location of the data: a data directory holding the notes file, the
/// settings file and a directory of backups.
pub struct Storage {
    data_dir: FsPath,
}

/// The path of a file or directory directly inside `dir`.
pub open spec fn child(dir: Seq<Seq<char>>, name: Seq<char>) -> Seq<Seq<char>> {
    dir.push(name)
}

/// The text of a backup file name for a time stamp: `data-<stamp>.json`.
pub open spec fn backup_file_name(stamp: Seq<char>) -> Seq<char> {
    backup_prefix() + stamp + backup_suffix()
}

/// Whether a file name is that of a backup: it starts with `data-` and ends
/// with `.json`.
pub open spec fn is_backup_file_name(name: Seq<char>) -> bool {
    &&& name.len() >= 5
    &&& name.subrange(0, 5) == backup_prefix()
    &&& name.subrange(name.len() - 5, name.len() as int) == backup_suffix()
}

impl Storage {
    /// The directory that holds the data.
    pub closed spec fn location(&self) -> Seq<Seq<char>> {
        self.data_dir@
    }

    /// The storage in the resolved data directory (see [`resolve_data_dir`]).
    /// The caller creates the directory and its backup directory.
    pub fn new(app_data_dir: Option<FsPath>, d_drive_exists: bool) -> (res: Result<Storage, Error>)
        ensures
            d_drive_exists ==> (res matches Ok(s) && s.location() == preferred_dir_parts()),
            !d_drive_exists ==> match app_data_dir {
                Some(dir) => res matches Ok(s) && s.location() == dir@,
                None => res matches Err(Error::Path(m)) && m@ == no_data_dir_message(),
            },
    {
        match resolve_data_dir(app_data_dir, d_drive_exists) {
            Ok(data_dir) => Ok(Storage { data_dir }),
            Err(e) => Err(e),
        }
    }

    /// The storage in a data directory that is already known.
    pub fn at(data_dir: FsPath) -> (res: Storage)
        ensures
            res.location() == data_dir@,
    {
        Storage { data_dir }
    }

    /// The data directory.
    pub fn data_dir(&self) -> (res: &FsPath)
        ensures
            res@ == self.location(),
    {
        &self.data_dir
    }

    /// `data.json` in the data directory.
    pub fn data_path(&self) -> (res: FsPath)
        ensures
            res@ == child(self.location(), data_file_name()),
    {
        proof {
            reveal_strlit("data.json");
            assert("data.json"@ =~= data_file_name());
        }
        self.data_dir.join("data.json")
    }

    /// `config.json` in the data directory.
    pub fn config_path(&self) -> (res: FsPath)
        ensures
            res@ == child(self.location(), config_file_name()),
    {
        proof {
            reveal_strlit("config.json");
            assert("config.json"@ =~= config_file_name());
        }
        self.data_dir.join("config.json")
    }

    /// `backups` in the data directory.
    pub fn backup_dir(&self) -> (res: FsPath)
        ensures
            res@ == child(self.location(), backup_dir_name()),
    {
        proof {
            reveal_strlit("backups");
            assert("backups"@ =~= backup_dir_name());
        }
        self.data_dir.join("backups")
    }

    /// The backup file for a time stamp, inside the backup directory.
    pub fn backup_path(&self, stamp: &str) -> (res: FsPath)
        ensures
            res@ == child(child(self.location(), backup_dir_name()), backup_file_name(stamp@)),
    {
        let name = backup_name(stamp);
        self.backup_dir().join(name.as_str())
    }

    /// The backup file for the current time.
    pub fn next_backup_path(&self) -> (res: FsPath)
        ensures
            exists|stamp: Seq<char>|
                is_backup_stamp(stamp) && res@ == child(
                    child(self.location(), backup_dir_name()),
                    backup_file_name(stamp),
                ),
    {
        let stamp = utc_now_formatted(BACKUP_STAMP_FORMAT);
        self.backup_path(stamp.as_str())
    }
}

/// The backup file name for a time stamp, `data-<stamp>.json`.
pub fn backup_name(stamp: &str) -> (res: String)
    ensures
        res@ == backup_file_name(stamp@),
{
    proof {
        reveal_strlit("data-");
        reveal_strlit(".json");
        assert("data-"@ =~= backup_prefix());
        assert(".json"@ =~= backup_suffix());
    }
    let mut name = String::from_str("data-");
    name.append(stamp);
    name.append(".json");
    name
}

/// Whether a file name is that of a backup (`data-*.json`).
pub fn is_backup_name(name: &str) -> (res: bool)
    ensures
        res == is_backup_file_name(name@),
{
    let n = name.unicode_len();
    if n < 5 {
        return false;
    }
    let ok = name.get_char(0) == 'd' && name.get_char(1) == 'a' && name.get_char(2) == 't'
        && name.get_char(3) == 'a' && name.get_char(4) == '-' && name.get_char(n - 5) == '.'
        && name.get_char(n - 4) == 'j' && name.get_char(n - 3) == 's' && name.get_char(n - 2)
        == 'o' && name.get_char(n - 1) == 'n';
    proof {
        let s = name@;
        if ok {
            assert(s.subrange(0, 5) =~= backup_prefix());
            assert(s.subrange(s.len() - 5, s.len() as int) =~= backup_suffix());
        } else {
            if s.subrange(0, 5) == backup_prefix() && s.subrange(s.len() - 5, s.len() as int)
                == backup_suffix() {
                assert(s[0] == s.subrange(0, 5)[0]);
                assert(s[1] == s.subrange(0, 5)[1]);
                assert(s[2] == s.subrange(0, 5)[2]);
                assert(s[3] == s.subrange(0, 5)[3]);
                assert(s[4] == s.subrange(0, 5)[4]);
                assert(s[n - 5] == s.subrange(s.len() - 5, s.len() as int)[0]);
                assert(s[n - 4] == s.subrange(s.len() - 5, s.len() as int)[1]);
                assert(s[n - 3] == s.subrange(s.len() - 5, s.len() as int)[2]);
                assert(s[n - 2] == s.subrange(s.len() - 5, s.len() as int)[3]);
                assert(s[n - 1] == s.subrange(s.len() - 5, s.len() as int)[4]);
            }
        }
    }
    ok
}

/// An entry of the backup directory: its file name, where the name is valid
/// Unicode, and its modification time in nanoseconds since the Unix epoch
/// (the epoch itself where the time could not be read).
#[derive(Debug)]
pub struct BackupEntry {
    pub name: Option<String>,
    pub modified: i128,
}

/// An entry whose name is that of a backup file.
pub open spec fn is_backup_entry(e: BackupEntry) -> bool {
    e.name matches Some(n) && is_backup_file_name(n@)
}

/// Entry `a` comes before entry `b` in newest-first order: it was modified
/// later, or at the same time and is listed earlier.
pub open spec fn newer_first(entries: Seq<BackupEntry>, a: int, b: int) -> bool {
    ||| entries[a].modified > entries[b].modified
    ||| (entries[a].modified == entries[b].modified && a < b)
}

/// `order` lists the positions of all backup entries, each once, newest
/// first; backups modified at the same time keep their listing order.
pub open spec fn is_newest_first(entries: Seq<BackupEntry>, order: Seq<usize>) -> bool {
    &&& forall|k: int|
        0 <= k < order.len() ==> #[trigger] order[k] < entries.len() && is_backup_entry(
            entries[order[k] as int],
        )
    &&& forall|i: int|
        0 <= i < entries.len() && is_backup_entry(#[trigger] entries[i]) ==> order.contains(
            i as usize,
        )
    &&& forall|k1: int, k2: int|
        0 <= k1 < k2 < order.len() ==> newer_first(entries, #[trigger] order[k1] as int, #[trigger] order[k2] as int)
}

/// The positions of the backup entries, newest first (see
/// [`is_newest_first`]). The order in which backups are tried for recovery.
pub fn newest_backups_first(entries: &Vec<BackupEntry>) -> (res: Vec<usize>)
    ensures
        is_newest_first(entries@, res@),
{
    let mut order: Vec<usize> = Vec::new();
    let n = entries.len();
    for i in 0..n
        invariant
            n == entries@.len(),
            forall|k: int|
                0 <= k < order@.len() ==> #[trigger] order@[k] < i && is_backup_entry(
                    entries@[order@[k] as int],
                ),
            forall|j: int|
                0 <= j < i && is_backup_entry(#[trigger] entries@[j]) ==> order@.contains(j as usize),
            forall|k1: int, k2: int|
                0 <= k1 < k2 < order@.len() ==> newer_first(
                    entries@,
                    #[trigger] order@[k1] as int,
                    #[trigger] order@[k2] as int,
                ),
    {
        let is_backup = match &entries[i].name {
            Some(name) => is_backup_name(name.as_str()),
            None => false,
        };
        if is_backup {
            let t = entries[i].modified;
            let mut p: usize = 0;
            while p < order.len() && entries[order[p]].modified >= t
                invariant
                    n == entries@.len(),
                    i < n,
                    t == entries@[i as int].modified,
                    p <= order@.len(),
                    forall|k: int| 0 <= k < order@.len() ==> #[trigger] order@[k] < i,
                    forall|k: int|
                        0 <= k < p ==> entries@[#[trigger] order@[k] as int].modified >= t,
                decreases order@.len() - p,
            {
                p = p + 1;
            }
            let ghost old_order = order@;
            proof {
                if p < old_order.len() {
                    assert forall|k: int| p <= k < old_order.len() implies entries@[old_order[k] as int].modified < t by {
                        if k > p {
                            assert(newer_first(entries@, old_order[p as int] as int, old_order[k] as int));
                        }
                    }
                }
            }
            order.insert(p, i);
            proof {
                assert(order@ == old_order.insert(p as int, i));
                assert forall|k1: int, k2: int|
                    0 <= k1 < k2 < order@.len() implies newer_first(
                        entries@,
                        #[trigger] order@[k1] as int,
                        #[trigger] order@[k2] as int,
                    ) by {
                    if k2 < p {
                        assert(order@[k1] == old_order[k1]);
                        assert(order@[k2] == old_order[k2]);
                    } else if k2 == p {
                        assert(order@[k1] == old_order[k1]);
                    } else if k1 < p {
                        assert(order@[k1] == old_order[k1]);
                        assert(order@[k2] == old_order[k2 - 1]);
                        assert(newer_first(entries@, old_order[k1] as int, old_order[k2 - 1] as int));
                    } else if k1 == p {
                        assert(order@[k2] == old_order[k2 - 1]);
                    } else {
                        assert(order@[k1] == old_order[k1 - 1]);
                        assert(order@[k2] == old_order[k2 - 1]);
                        assert(newer_first(entries@, old_order[k1 - 1] as int, old_order[k2 - 1] as int));
                    }
                }
                assert forall|j: int|
                    0 <= j < i + 1 && is_backup_entry(#[trigger] entries@[j]) implies order@.contains(j as usize) by {
                    if j < i {
                        assert(old_order.contains(j as usize));
                        let k = choose|k: int| 0 <= k < old_order.len() && old_order[k] == j as usize;
                        if k < p {
                            assert(order@[k] == j as usize);
                        } else {
                            assert(order@[k + 1] == j as usize);
                        }
                    } else {
                        assert(order@[p as int] == i);
                    }
                }
            }
        } else {
            proof {
                assert forall|j: int|
                    0 <= j < i + 1 && is_backup_entry(#[trigger] entries@[j]) implies order@.contains(j as usize) by {
                    if j == i {
                        match entries@[i as int].name {
                            Some(nm) => {},
                            None => {},
                        }
                    }
                }
            }
        }
    }
    order
}

/// Two orders that list the same positions, each sorted newest first, are
/// the same order.
proof fn lemma_sorted_orders_equal(entries: Seq<BackupEntry>, o1: Seq<usize>, o2: Seq<usize>)
    requires
        forall|k1: int, k2: int|
            0 <= k1 < k2 < o1.len() ==> newer_first(entries, #[trigger] o1[k1] as int, #[trigger] o1[k2] as int),
        forall|k1: int, k2: int|
            0 <= k1 < k2 < o2.len() ==> newer_first(entries, #[trigger] o2[k1] as int, #[trigger] o2[k2] as int),
        forall|x: usize| o1.contains(x) <==> o2.contains(x),
    ensures
        o1 == o2,
    decreases o1.len(),
{
    if o1.len() == 0 {
        if o2.len() > 0 {
            assert(o2.contains(o2[0]));
        }
        assert(o1 =~= o2);
    } else {
        assert(o1.contains(o1[0]));
        assert(o2.len() > 0);
        assert(o2.contains(o2[0]));
        let a = o1[0];
        let b = o2[0];
        if a != b {
            let j = choose|j: int| 0 <= j < o1.len() && o1[j] == b;
            let m = choose|m: int| 0 <= m < o2.len() && o2[m] == a;
            assert(j > 0);
            assert(m > 0);
            assert(newer_first(entries, o1[0] as int, o1[j] as int));
            assert(newer_first(entries, o2[0] as int, o2[m] as int));
        }
        let t1 = o1.drop_first();
        let t2 = o2.drop_first();
        assert forall|x: usize| t1.contains(x) implies t2.contains(x) by {
            let j = choose|j: int| 0 <= j < t1.len() && t1[j] == x;
            assert(o1[j + 1] == x);
            assert(newer_first(entries, o1[0] as int, o1[j + 1] as int));
            assert(o1.contains(x));
            let m = choose|m: int| 0 <= m < o2.len() && o2[m] == x;
            if m == 0 {
                assert(x == a);
            }
            assert(t2[m - 1] == x);
        }
        assert forall|x: usize| t2.contains(x) implies t1.contains(x) by {
            let j = choose|j: int| 0 <= j < t2.len() && t2[j] == x;
            assert(o2[j + 1] == x);
            assert(newer_first(entries, o2[0] as int, o2[j + 1] as int));
            assert(o2.contains(x));
            let m = choose|m: int| 0 <= m < o1.len() && o1[m] == x;
            if m == 0 {
                assert(x == b);
            }
            assert(t1[m - 1] == x);
        }
        assert forall|k1: int, k2: int|
            0 <= k1 < k2 < t1.len() implies newer_first(entries, #[trigger] t1[k1] as int, #[trigger] t1[k2] as int) by {
            assert(t1[k1] == o1[k1 + 1]);
            assert(t1[k2] == o1[k2 + 1]);
        }
        assert forall|k1: int, k2: int|
            0 <= k1 < k2 < t2.len() implies newer_first(entries, #[trigger] t2[k1] as int, #[trigger] t2[k2] as int) by {
            assert(t2[k1] == o2[k1 + 1]);
            assert(t2[k2] == o2[k2 + 1]);
        }
        lemma_sorted_orders_equal(entries, t1, t2);
        assert(o1 =~= seq![a] + t1);
        assert(o2 =~= seq![b] + t2);
    }
}

/// There is only one newest-first order of the backups in a listing.
pub proof fn newest_first_order_is_unique(entries: Seq<BackupEntry>, o1: Seq<usize>, o2: Seq<usize>)
    requires
        is_newest_first(entries, o1),
        is_newest_first(entries, o2),
    ensures
        o1 == o2,
{
    assert forall|x: usize| o1.contains(x) implies o2.contains(x) by {
        let k = choose|k: int| 0 <= k < o1.len() && o1[k] == x;
        assert(o1[k] < entries.len() && is_backup_entry(entries[o1[k] as int]));
        assert(is_backup_entry(entries[x as int]));
    }
    assert forall|x: usize| o2.contains(x) implies o1.contains(x) by {
        let k = choose|k: int| 0 <= k < o2.len() && o2[k] == x;
        assert(o2[k] < entries.len() && is_backup_entry(entries[o2[k] as int]));
        assert(is_backup_entry(entries[x as int]));
    }
    lemma_sorted_orders_equal(entries, o1, o2);
}

/// The backups that exceed the retention count `keep`: all but the `keep`
/// newest, newest first.
pub open spec fn is_excess_backups(entries: Seq<BackupEntry>, keep: u32, res: Seq<usize>) -> bool {
    exists|order: Seq<usize>|
        is_newest_first(entries, order) && res == order.skip(
            if keep as int <= order.len() { keep as int } else { order.len() as int },
        )
}

/// The positions of the backups to delete so that only the `keep` newest
/// remain, newest first.
pub fn backups_to_remove(entries: &Vec<BackupEntry>, keep: u32) -> (res: Vec<usize>)
    ensures
        is_excess_backups(entries@, keep, res@),
{
    let order = newest_backups_first(entries);
    let n = order.len();
    let start: usize = if (keep as usize) <= n { keep as usize } else { n };
    let mut res: Vec<usize> = Vec::new();
    let mut i: usize = start;
    while i < n
        invariant
            n == order@.len(),
            start <= i <= n,
            res@ == order@.subrange(start as int, i as int),
        decreases n - i,
    {
        res.push(order[i]);
        i = i + 1;
        assert(res@ =~= order@.subrange(start as int, i as int));
    }
    assert(res@ =~= order@.skip(start as int));
    res
}

/// The notes file, the settings file and the backup directory are three
/// distinct entries of the data directory, and no backup file is any of
/// them.
pub proof fn storage_layout_is_disjoint(dir: Seq<Seq<char>>, stamp: Seq<char>)
    ensures
        child(dir, data_file_name()) != child(dir, config_file_name()),
        child(dir, data_file_name()) != child(dir, backup_dir_name()),
        child(dir, config_file_name()) != child(dir, backup_dir_name()),
        child(child(dir, backup_dir_name()), backup_file_name(stamp)) != child(dir, data_file_name()),
        child(child(dir, backup_dir_name()), backup_file_name(stamp)) != child(dir, config_file_name()),
        child(dir, data_file_name()).drop_last() == dir,
        child(dir, config_file_name()).drop_last() == dir,
        child(dir, backup_dir_name()).drop_last() == dir,
{
    assert(child(dir, data_file_name()).last() == data_file_name());
    assert(child(dir, config_file_name()).last() == config_file_name());
    assert(child(dir, backup_dir_name()).last() == backup_dir_name());
    assert(data_file_name().len() != config_file_name().len());
    assert(data_file_name().len() != backup_dir_name().len());
    assert(config_file_name().len() != backup_dir_name().len());
    assert(child(dir, data_file_name()).len() == dir.len() + 1);
    assert(child(child(dir, backup_dir_name()), backup_file_name(stamp)).len() == dir.len() + 2);
    assert(child(dir, data_file_name()).drop_last() =~= dir);
    assert(child(dir, config_file_name()).drop_last() =~= dir);
    assert(child(dir, backup_dir_name()).drop_last() =~= dir);
}

/// Every backup the storage writes is recognised as a backup when backups
/// are listed for recovery or retention, while the notes and settings files
/// are not.
pub proof fn backup_names_are_recognised(stamp: Seq<char>)
    ensures
        is_backup_file_name(backup_file_name(stamp)),
        !is_backup_file_name(data_file_name()),
        !is_backup_file_name(config_file_name()),
{
    let name = backup_file_name(stamp);
    assert(name.subrange(0, 5) =~= backup_prefix());
    assert(name.subrange(name.len() - 5, name.len() as int) =~= backup_suffix());
    assert(data_file_name().subrange(0, 5)[4] == '.');
    assert(config_file_name().subrange(0, 5)[0] == 'c');
}

/// Retention keeps the `keep` newest backups: it removes all backups
/// beyond the first `keep` in newest-first order, and each removed backup
/// is older than (or as old as and listed after) each kept one.
pub proof fn retention_keeps_the_newest(entries: Seq<BackupEntry>, keep: u32, removed: Seq<usize>)
    requires
        is_excess_backups(entries, keep, removed),
        entries.len() <= usize::MAX,
    ensures
        forall|k: int| 0 <= k < removed.len() ==> is_backup_entry(entries[#[trigger] removed[k] as int]),
        forall|i: int, k: int|
            0 <= i < entries.len() && is_backup_entry(#[trigger] entries[i]) && 0 <= k
                < removed.len() && !removed.contains(i as usize) ==> newer_first(
                entries,
                i,
                #[trigger] removed[k] as int,
            ),
{
    let order = choose|order: Seq<usize>|
        is_newest_first(entries, order) && removed == order.skip(
            if keep as int <= order.len() { keep as int } else { order.len() as int },
        );
    let start = if keep as int <= order.len() { keep as int } else { order.len() as int };
    assert forall|k: int| 0 <= k < removed.len() implies is_backup_entry(entries[#[trigger] removed[k] as int]) by {
        assert(removed[k] == order[start + k]);
    }
    assert forall|i: int, k: int|
        0 <= i < entries.len() && is_backup_entry(#[trigger] entries[i]) && 0 <= k < removed.len()
            && !removed.contains(i as usize) implies newer_first(
        entries,
        i,
        #[trigger] removed[k] as int,
    ) by {
        assert(order.contains(i as usize));
        let p = choose|p: int| 0 <= p < order.len() && order[p] == i as usize;
        if p >= start {
            assert(removed[p - start] == i as usize);
        }
        assert(removed[k] == order[start + k]);
        assert(p < start + k);
        assert(newer_first(entries, order[p] as int, order[start + k] as int));
    }
}

/// The outcome of reading a stored file (the notes or the settings).
pub enum FileRead {
    /// The file does not exist.
    Missing,
    /// The file exists but could not be read; the message of the failure.
    Unreadable(String),
    /// The text of the file.
    Text(String),
}

/// What to do with a file that was read.
pub enum LoadStep {
    /// Use the default value: the file is missing or blank.
    UseDefault,
    /// Decode this text.
    Decode(String),
    /// Report this error.
    Fail(Error),
}

/// Interprets a read file: a missing or blank file stands for the default
/// value, a file that could not be read is an I/O error, any other text is
/// to be decoded.
pub fn classify_read(read: FileRead) -> (res: LoadStep)
    ensures
        match read {
            FileRead::Missing => res is UseDefault,
            FileRead::Unreadable(msg) => res matches LoadStep::Fail(Error::Io(m)) && m == msg,
            FileRead::Text(t) => if is_blank_text(t@) {
                res is UseDefault
            } else {
                res matches LoadStep::Decode(c) && c == t
            },
        },
{
    match read {
        FileRead::Missing => LoadStep::UseDefault,
        FileRead::Unreadable(msg) => LoadStep::Fail(Error::Io(msg)),
        FileRead::Text(t) => {
            if is_blank(t.as_str()) {
                LoadStep::UseDefault
            } else {
                LoadStep::Decode(t)
            }
        },
    }
}

/// The text that prefixes the decoding error when the notes file is
/// corrupt and no backup could be restored.
pub open spec fn corrupt_without_backup_message() -> Seq<char> {
    "data.json 损坏且无可用备份: "@
}

/// The notes to use after the notes file failed to decode: those of the
/// restored backup, or, when no backup could be restored, a path error that
/// carries the decoding error.
pub fn recovered_data(decode_error: String, restored: Option<DataFile>) -> (res: Result<
    DataFile,
    Error,
>)
    ensures
        match restored {
            Some(d) => res matches Ok(r) && r == d,
            None => res matches Err(Error::Path(m)) && m@ == corrupt_without_backup_message()
                + decode_error@,
        },
{
    match restored {
        Some(d) => Ok(d),
        None => {
            let mut msg = String::from_str("data.json 损坏且无可用备份: ");
            msg.append(decode_error.as_str());
            Err(Error::Path(msg))
        },
    }
}

/// How many times a write is attempted before it is given up.
pub const SAVE_MAX_RETRIES: usize = 3;

/// The pause between two attempts of a write, in milliseconds.
pub const SAVE_RETRY_INTERVAL_MS: u64 = 100;

/// What follows an attempt to write a file.
pub enum WriteStep {
    /// The write succeeded.
    Done,
    /// Wait this many milliseconds, then attempt again.
    RetryAfter(u64),
    /// Stop and report this error.
    GiveUp(Error),
}

/// Whether a write goes on after attempt number `attempt` (counting from 1)
/// with the given outcome: only after a failure, and only while attempts
/// are left.
pub open spec fn write_goes_on(attempt: int, succeeded: bool) -> bool {
    !succeeded && attempt < SAVE_MAX_RETRIES
}

/// The step after attempt number `attempt` of a write: done on success;
/// after a failure, another attempt after the pause while attempts are
/// left, otherwise the error of the last attempt.
pub fn after_write_attempt(attempt: usize, outcome: Result<(), Error>) -> (res: WriteStep)
    requires
        1 <= attempt <= SAVE_MAX_RETRIES,
    ensures
        (res is RetryAfter) == write_goes_on(attempt as int, outcome is Ok),
        res is RetryAfter ==> res == WriteStep::RetryAfter(SAVE_RETRY_INTERVAL_MS),
        outcome is Ok ==> res is Done,
        outcome matches Err(e) ==> !write_goes_on(attempt as int, false) ==> res == WriteStep::GiveUp(e),
{
    match outcome {
        Ok(()) => WriteStep::Done,
        Err(e) => {
            if attempt < SAVE_MAX_RETRIES {
                WriteStep::RetryAfter(SAVE_RETRY_INTERVAL_MS)
            } else {
                WriteStep::GiveUp(e)
            }
        },
    }
}

/// The number of attempts a write makes when attempt `k` (from `from`
/// on) succeeds exactly when `outcomes[k - 1]` holds.
pub open spec fn attempts_made(outcomes: Seq<bool>, from: int) -> int
    decreases SAVE_MAX_RETRIES - from,
{
    if from < SAVE_MAX_RETRIES && write_goes_on(from, outcomes[from - 1]) {
        attempts_made(outcomes, from + 1)
    } else {
        from
    }
}

/// A write is attempted at most three times: exactly three times when every
/// attempt fails, and otherwise until the first attempt that succeeds.
pub proof fn write_attempts_are_bounded(outcomes: Seq<bool>, from: int)
    requires
        1 <= from <= SAVE_MAX_RETRIES,
        outcomes.len() >= SAVE_MAX_RETRIES,
    ensures
        from <= attempts_made(outcomes, from) <= SAVE_MAX_RETRIES,
        (forall|i: int| from - 1 <= i < SAVE_MAX_RETRIES ==> !#[trigger] outcomes[i])
            ==> attempts_made(outcomes, from) == SAVE_MAX_RETRIES,
        forall|i: int|
            from - 1 <= i < SAVE_MAX_RETRIES && #[trigger] outcomes[i] && (forall|j: int|
                from - 1 <= j < i ==> !#[trigger] outcomes[j]) ==> attempts_made(outcomes, from) == i
                + 1,
    decreases SAVE_MAX_RETRIES - from,
{
    if from < SAVE_MAX_RETRIES {
        write_attempts_are_bounded(outcomes, from + 1);
    }
}

} // verus!
