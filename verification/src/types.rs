use vstd::prelude::*;

use crate::platform::{
    ascii_lowercase, is_ascii_text,
    hex_digit, hex_text,
    is_random_uuid, lowercase_text, now_millis, random_uuid_bytes, to_lowercase, uuid_hyphenated,
    uuid_text,
};

verus! {

/// The six paper colours of a note.
#[derive(Debug, Clone, Copy, PartialEq, Eq, Structural)]
pub enum NoteColor {
    Yellow,
    Pink,
    Green,
    Blue,
    Purple,
    Cream,
}

/// The persisted name of each colour.
pub open spec fn color_name(c: NoteColor) -> Seq<char> {
    match c {
        NoteColor::Yellow => seq!['y', 'e', 'l', 'l', 'o', 'w'],
        NoteColor::Pink => seq!['p', 'i', 'n', 'k'],
        NoteColor::Green => seq!['g', 'r', 'e', 'e', 'n'],
        NoteColor::Blue => seq!['b', 'l', 'u', 'e'],
        NoteColor::Purple => seq!['p', 'u', 'r', 'p', 'l', 'e'],
        NoteColor::Cream => seq!['c', 'r', 'e', 'a', 'm'],
    }
}

/// The colour that an already lower-cased name denotes: one of the six
/// names, `orange` (the former name of cream), or yellow for anything else.
pub open spec fn color_of_lowercase(s: Seq<char>) -> NoteColor {
    if s == color_name(NoteColor::Yellow) {
        NoteColor::Yellow
    } else if s == color_name(NoteColor::Pink) {
        NoteColor::Pink
    } else if s == color_name(NoteColor::Green) {
        NoteColor::Green
    } else if s == color_name(NoteColor::Blue) {
        NoteColor::Blue
    } else if s == color_name(NoteColor::Purple) {
        NoteColor::Purple
    } else if s == color_name(NoteColor::Cream) || s == seq!['o', 'r', 'a', 'n', 'g', 'e'] {
        NoteColor::Cream
    } else {
        NoteColor::Yellow
    }
}

pub fn text_equals(a: &str, b: &str) -> (res: bool)
    ensures
        res == (a@ == b@),
{
    let n = a.unicode_len();
    if n != b.unicode_len() {
        return false;
    }
    let mut i: usize = 0;
    while i < n
        invariant
            n == a@.len(),
            n == b@.len(),
            i <= n,
            forall|j: int| 0 <= j < i ==> a@[j] == b@[j],
        decreases n - i,
    {
        if a.get_char(i) != b.get_char(i) {
            return false;
        }
        i = i + 1;
    }
    assert(a@ =~= b@);
    true
}

impl NoteColor {
    /// The name under which the colour is persisted.
    pub fn name(&self) -> (res: &'static str)
        ensures
            res@ == color_name(*self),
    {
        match self {
            NoteColor::Yellow => {
                proof { reveal_strlit("yellow"); }
                "yellow"
            },
            NoteColor::Pink => {
                proof { reveal_strlit("pink"); }
                "pink"
            },
            NoteColor::Green => {
                proof { reveal_strlit("green"); }
                "green"
            },
            NoteColor::Blue => {
                proof { reveal_strlit("blue"); }
                "blue"
            },
            NoteColor::Purple => {
                proof { reveal_strlit("purple"); }
                "purple"
            },
            NoteColor::Cream => {
                proof { reveal_strlit("cream"); }
                "cream"
            },
        }
    }

    /// The colour denoted by an already lower-cased name.
    pub fn from_lowercase_name(s: &str) -> (res: NoteColor)
        ensures
            res == color_of_lowercase(s@),
    {
        proof {
            reveal_strlit("yellow");
            reveal_strlit("pink");
            reveal_strlit("green");
            reveal_strlit("blue");
            reveal_strlit("purple");
            reveal_strlit("cream");
            reveal_strlit("orange");
            assert("yellow"@ =~= color_name(NoteColor::Yellow));
            assert("pink"@ =~= color_name(NoteColor::Pink));
            assert("green"@ =~= color_name(NoteColor::Green));
            assert("blue"@ =~= color_name(NoteColor::Blue));
            assert("purple"@ =~= color_name(NoteColor::Purple));
            assert("cream"@ =~= color_name(NoteColor::Cream));
            assert("orange"@ =~= seq!['o', 'r', 'a', 'n', 'g', 'e']);
        }
        if text_equals(s, "yellow") {
            NoteColor::Yellow
        } else if text_equals(s, "pink") {
            NoteColor::Pink
        } else if text_equals(s, "green") {
            NoteColor::Green
        } else if text_equals(s, "blue") {
            NoteColor::Blue
        } else if text_equals(s, "purple") {
            NoteColor::Purple
        } else if text_equals(s, "cream") || text_equals(s, "orange") {
            NoteColor::Cream
        } else {
            NoteColor::Yellow
        }
    }

    /// The colour a persisted name denotes: the name is lower-cased, then
    /// read as [`NoteColor::from_lowercase_name`] reads it.
    pub fn from_name(s: &str) -> (res: NoteColor)
        ensures
            res == color_of_lowercase(lowercase_text(s@)),
            is_ascii_text(s@) ==> res == color_of_lowercase(ascii_lowercase(s@)),
    {
        let lower = to_lowercase(s);
        NoteColor::from_lowercase_name(lower.as_str())
    }
}

impl Default for NoteColor {
    fn default() -> (res: NoteColor)
        ensures
            res == NoteColor::Yellow,
    {
        NoteColor::Yellow
    }
}

/// Every colour reads back as itself from its persisted name.
pub proof fn color_name_round_trip(c: NoteColor)
    ensures
        color_of_lowercase(color_name(c)) == c,
{
    assert(color_name(NoteColor::Pink) != color_name(NoteColor::Yellow));
    assert(color_name(NoteColor::Green) != color_name(NoteColor::Yellow));
    assert(color_name(NoteColor::Green) != color_name(NoteColor::Pink));
    assert(color_name(NoteColor::Blue) != color_name(NoteColor::Yellow));
    assert(color_name(NoteColor::Blue) != color_name(NoteColor::Pink));
    assert(color_name(NoteColor::Blue) != color_name(NoteColor::Green));
    assert(color_name(NoteColor::Purple) != color_name(NoteColor::Yellow));
    assert(color_name(NoteColor::Purple) != color_name(NoteColor::Pink));
    assert(color_name(NoteColor::Purple) != color_name(NoteColor::Green));
    assert(color_name(NoteColor::Purple) != color_name(NoteColor::Blue));
    assert(color_name(NoteColor::Cream) != color_name(NoteColor::Yellow));
    assert(color_name(NoteColor::Cream) != color_name(NoteColor::Pink));
    assert(color_name(NoteColor::Cream) != color_name(NoteColor::Green));
    assert(color_name(NoteColor::Cream) != color_name(NoteColor::Blue));
    assert(color_name(NoteColor::Cream) != color_name(NoteColor::Purple));
}

/// Every persisted colour name, read back through [`NoteColor::from_name`]
/// (which lower-cases it first), gives the same colour.
pub proof fn persisted_color_names_read_back(c: NoteColor)
    ensures
        is_ascii_text(color_name(c)),
        color_of_lowercase(ascii_lowercase(color_name(c))) == c,
{
    assert(ascii_lowercase(color_name(c)) =~= color_name(c));
    color_name_round_trip(c);
}

/// Window width of a new note, in pixels.
pub const NEW_NOTE_WIDTH: u32 = 240;

/// Window height of a new note, in pixels.
pub const NEW_NOTE_HEIGHT: u32 = 240;

/// Screen position of a new note window (both coordinates).
pub const NEW_NOTE_POSITION: i32 = 100;

/// A sticky note.
///
/// `rotation_milli` is the small random tilt of a note on the desktop, in
/// thousandths of a degree.
#[derive(Debug, Clone)]
pub struct Note {
    /// Unique id, the hyphenated text of a random UUID.
    pub id: String,
    pub title: String,
    pub content: String,
    pub color: NoteColor,
    pub width: u32,
    pub height: u32,
    pub x: i32,
    pub y: i32,
    /// Creation time, Unix milliseconds.
    pub created_at: i64,
    /// Last modification time, Unix milliseconds.
    pub updated_at: i64,
    /// Whether the note is stuck on the desktop as a window of its own.
    pub pinned: bool,
    pub rotation_milli: i32,
    /// The display the note window sits on; empty for the primary display.
    pub monitor: String,
    /// Completion time, Unix milliseconds, while the note is completed.
    pub completed_at: Option<i64>,
}

/// The big-endian value of the first four bytes.
pub open spec fn leading_u32(bytes: Seq<u8>) -> int {
    bytes[0] * 16777216 + bytes[1] * 65536 + bytes[2] * 256 + bytes[3]
}

/// The tilt a new note takes from its UUID bytes: the big-endian value of
/// the first four bytes modulo 1601, shifted down by 800, so that it lies in
/// -800 ..= 800 thousandths of a degree.
pub open spec fn rotation_of(bytes: Seq<u8>) -> int {
    leading_u32(bytes) % 1601 - 800
}

/// A note as [`Note::new_from`] makes it from UUID bytes and a clock reading.
pub open spec fn is_new_note(n: Note, bytes: Seq<u8>, now: i64) -> bool {
    &&& n.title@ == Seq::<char>::empty()
    &&& n.content@ == Seq::<char>::empty()
    &&& n.color == NoteColor::Yellow
    &&& is_fresh_note(n, bytes, now)
}

/// The id, window, times, flags and tilt of a note freshly made from UUID
/// bytes and a clock reading, whatever its title, text and colour.
pub open spec fn is_fresh_note(n: Note, bytes: Seq<u8>, now: i64) -> bool {
    &&& n.id@ == uuid_hyphenated(bytes)
    &&& n.width == 240
    &&& n.height == 240
    &&& n.x == 100
    &&& n.y == 100
    &&& n.created_at == now
    &&& n.updated_at == now
    &&& !n.pinned
    &&& n.rotation_milli == rotation_of(bytes)
    &&& n.monitor@ == Seq::<char>::empty()
    &&& n.completed_at is None
}

/// The tilt of a new note lies within -800 ..= 800 thousandths of a degree.
pub proof fn new_note_tilt_is_bounded(bytes: Seq<u8>)
    requires
        bytes.len() >= 4,
    ensures
        -800 <= rotation_of(bytes) <= 800,
{
}

/// The length of the hex text of some bytes is twice their number, and its
/// characters are hex digits.
proof fn lemma_hex_text(bytes: Seq<u8>)
    ensures
        hex_text(bytes).len() == 2 * bytes.len(),
        forall|i: int| 0 <= i < hex_text(bytes).len() ==> #[trigger] hex_text(bytes)[i] != '-',
    decreases bytes.len(),
{
    if bytes.len() > 0 {
        lemma_hex_text(bytes.drop_first());
        let head = seq![hex_digit(bytes[0] as int / 16), hex_digit(bytes[0] as int % 16)];
        let rest = hex_text(bytes.drop_first());
        assert forall|i: int| 0 <= i < hex_text(bytes).len() implies #[trigger] hex_text(bytes)[i] != '-' by {
            if i < 2 {
                assert(hex_text(bytes)[i] == head[i]);
            } else {
                assert(hex_text(bytes)[i] == rest[i - 2]);
            }
        }
    }
}

/// The id of every new note has the UUID shape: 36 characters, with `-`
/// exactly at positions 8, 13, 18 and 23.
pub proof fn new_note_id_shape(bytes: Seq<u8>)
    requires
        bytes.len() == 16,
    ensures
        uuid_hyphenated(bytes).len() == 36,
        forall|i: int|
            0 <= i < 36 ==> ((#[trigger] uuid_hyphenated(bytes)[i] == '-') <==> (i == 8 || i == 13
                || i == 18 || i == 23)),
{
    lemma_hex_text(bytes);
    let h = hex_text(bytes);
    let u = uuid_hyphenated(bytes);
    assert forall|i: int|
        0 <= i < 36 implies ((#[trigger] u[i] == '-') <==> (i == 8 || i == 13 || i == 18 || i
            == 23)) by {
        if i < 8 {
            assert(u[i] == h[i]);
        } else if 8 < i < 13 {
            assert(u[i] == h[i - 1]);
        } else if 13 < i < 18 {
            assert(u[i] == h[i - 2]);
        } else if 18 < i < 23 {
            assert(u[i] == h[i - 3]);
        } else if 23 < i {
            assert(u[i] == h[i - 4]);
        }
    }
}

impl Note {
    /// A new note from the bytes of its UUID and the current time: empty
    /// title and text, yellow, 240x240 at (100, 100), not pinned, not
    /// completed, with the tilt that the UUID bytes give.
    pub fn new_from(uuid: [u8; 16], now: i64) -> (res: Note)
        ensures
            is_new_note(res, uuid@, now),
    {
        let n: u32 = (uuid[0] as u32) * 16777216 + (uuid[1] as u32) * 65536 + (uuid[2] as u32)
            * 256 + (uuid[3] as u32);
        let step: u32 = n % 1601;
        let rotation_milli: i32 = (step as i32) - 800;
        Note {
            id: uuid_text(uuid),
            title: String::new(),
            content: String::new(),
            color: NoteColor::Yellow,
            width: NEW_NOTE_WIDTH,
            height: NEW_NOTE_HEIGHT,
            x: NEW_NOTE_POSITION,
            y: NEW_NOTE_POSITION,
            created_at: now,
            updated_at: now,
            pinned: false,
            rotation_milli,
            monitor: String::new(),
            completed_at: None,
        }
    }

    /// A new note with a fresh random UUID, stamped with the current time.
    pub fn new() -> (res: Note)
        ensures
            exists|bytes: Seq<u8>| is_random_uuid(bytes) && is_new_note(res, bytes, res.created_at),
            -800 <= res.rotation_milli <= 800,
    {
        let uuid = random_uuid_bytes();
        let now = now_millis();
        Note::new_from(uuid, now)
    }

    /// An exact copy of the note.
    pub fn snapshot(&self) -> (res: Note)
        ensures
            res == *self,
    {
        Note {
            id: self.id.clone(),
            title: self.title.clone(),
            content: self.content.clone(),
            color: self.color,
            width: self.width,
            height: self.height,
            x: self.x,
            y: self.y,
            created_at: self.created_at,
            updated_at: self.updated_at,
            pinned: self.pinned,
            rotation_milli: self.rotation_milli,
            monitor: self.monitor.clone(),
            completed_at: self.completed_at,
        }
    }

    /// Marks the note as modified at the given time.
    pub fn touch_at(&mut self, now: i64)
        ensures
            *final(self) == (Note { updated_at: now, ..*old(self) }),
    {
        self.updated_at = now;
    }

    /// Marks the note as modified now.
    pub fn touch(&mut self)
        ensures
            *final(self) == (Note { updated_at: final(self).updated_at, ..*old(self) }),
    {
        let now = now_millis();
        self.touch_at(now);
    }
}

/// The colour scheme of the windows.
#[derive(Debug, Clone, Copy, PartialEq, Eq, Structural)]
pub enum Theme {
    Light,
    Dark,
    System,
}

impl Default for Theme {
    fn default() -> (res: Theme)
        ensures
            res == Theme::System,
    {
        Theme::System
    }
}

/// What closing the main window does.
#[derive(Debug, Clone, Copy, PartialEq, Eq, Structural)]
pub enum CloseAction {
    /// Hide the window to the tray.
    Tray,
    /// Quit the application.
    Quit,
}

impl Default for CloseAction {
    fn default() -> (res: CloseAction)
        ensures
            res == CloseAction::Tray,
    {
        CloseAction::Tray
    }
}

/// Application settings.
#[derive(Debug, Clone)]
pub struct Config {
    /// Start with the system.
    pub auto_start: bool,
    /// Global shortcut that creates a note.
    pub hotkey: String,
    /// Colour of notes created without one.
    pub default_color: NoteColor,
    /// Back up the data file after each save.
    pub auto_backup: bool,
    /// How many backups to keep.
    pub backup_keep: u32,
    pub theme: Theme,
    pub close_action: CloseAction,
    /// Keep note windows above other windows.
    pub always_on_top: bool,
}

/// The default of a flag that is on unless stated otherwise.
pub fn default_true() -> (res: bool)
    ensures
        res,
{
    true
}

/// The default shortcut text, `Ctrl+Alt+N`.
pub open spec fn default_hotkey() -> Seq<char> {
    seq!['C', 't', 'r', 'l', '+', 'A', 'l', 't', '+', 'N']
}

/// The default settings.
pub open spec fn is_default_config(c: Config) -> bool {
    &&& !c.auto_start
    &&& c.hotkey@ == default_hotkey()
    &&& c.default_color == NoteColor::Yellow
    &&& c.auto_backup
    &&& c.backup_keep == 5
    &&& c.theme == Theme::System
    &&& c.close_action == CloseAction::Tray
    &&& c.always_on_top
}

impl Config {
    /// An exact copy of the settings.
    pub fn snapshot(&self) -> (res: Config)
        ensures
            res == *self,
    {
        Config {
            auto_start: self.auto_start,
            hotkey: self.hotkey.clone(),
            default_color: self.default_color,
            auto_backup: self.auto_backup,
            backup_keep: self.backup_keep,
            theme: self.theme,
            close_action: self.close_action,
            always_on_top: self.always_on_top,
        }
    }
}

impl Default for Config {
    fn default() -> (res: Config)
        ensures
            is_default_config(res),
    {
        proof {
            reveal_strlit("Ctrl+Alt+N");
            assert("Ctrl+Alt+N"@ =~= default_hotkey());
        }
        Config {
            auto_start: false,
            hotkey: String::from_str("Ctrl+Alt+N"),
            default_color: NoteColor::Yellow,
            auto_backup: true,
            backup_keep: 5,
            theme: Theme::System,
            close_action: CloseAction::Tray,
            always_on_top: true,
        }
    }
}

/// The persisted notes.
#[derive(Debug, Clone)]
pub struct DataFile {
    pub notes: Vec<Note>,
}

impl Default for DataFile {
    fn default() -> (res: DataFile)
        ensures
            res.notes@ == Seq::<Note>::empty(),
    {
        DataFile { notes: Vec::new() }
    }
}

} // verus!
