//! The calls that the note store makes into the clock, the UUID generator and
//! the standard library's Unicode case mapping.

use vstd::prelude::*;

verus! {

/// The lower-case hexadecimal digit of a value below 16.
pub open spec fn hex_digit(n: int) -> char {
    if n < 10 {
        (n + 48) as char
    } else {
        (n + 87) as char
    }
}

/// Two lower-case hexadecimal digits per byte, most significant first.
pub open spec fn hex_text(bytes: Seq<u8>) -> Seq<char>
    decreases bytes.len(),
{
    if bytes.len() == 0 {
        Seq::empty()
    } else {
        seq![hex_digit(bytes[0] as int / 16), hex_digit(bytes[0] as int % 16)] + hex_text(bytes.drop_first())
    }
}

/// The hyphenated lower-case text of a 16-byte UUID: 32 hex digits grouped
/// 8-4-4-4-12 and separated by `-`.
pub open spec fn uuid_hyphenated(bytes: Seq<u8>) -> Seq<char> {
    let h = hex_text(bytes);
    h.subrange(0, 8) + seq!['-'] + h.subrange(8, 12) + seq!['-'] + h.subrange(12, 16) + seq!['-']
        + h.subrange(16, 20) + seq!['-'] + h.subrange(20, 32)
}

/// The bytes of a random (version 4, RFC 4122 variant) UUID: the version
/// nibble is 4 and the two top bits of byte 8 are `10`.
pub open spec fn is_random_uuid(bytes: Seq<u8>) -> bool {
    &&& bytes.len() == 16
    &&& bytes[6] / 16 == 4
    &&& bytes[8] / 64 == 2
}

/// `uuid::Uuid::new_v4`, taken as its 16 bytes.
///
/// The crate masks random bits so that the version nibble (high half of
/// byte 6) is 4 and the variant bits (top two bits of byte 8) are `10`;
/// that is all that is claimed. The other bits are random and nothing is
/// said of them.
#[verifier::external_body]
pub(crate) fn random_uuid_bytes() -> (res: [u8; 16])
    ensures
        is_random_uuid(res@),
{
    uuid::Uuid::new_v4().into_bytes()
}

/// `uuid::Uuid`'s `Display` (via `to_string`) on the UUID with the given
/// bytes: the crate writes the hyphenated lower-case form, which is claimed
/// exactly.
#[verifier::external_body]
pub(crate) fn uuid_text(bytes: [u8; 16]) -> (res: String)
    ensures
        res@ == uuid_hyphenated(bytes@),
{
    uuid::Uuid::from_bytes(bytes).to_string()
}

/// `chrono::Utc::now().timestamp_millis()`: the wall clock in Unix
/// milliseconds. It depends on the time of the call, so nothing is claimed
/// of it.
#[verifier::external_body]
pub(crate) fn now_millis() -> (res: i64) {
    chrono::Utc::now().timestamp_millis()
}

/// A decimal digit.
pub open spec fn is_digit(c: char) -> bool {
    '0' <= c <= '9'
}

/// The text chrono writes for `%Y`: a year in 0 ..= 9999 as four digits,
/// any other year as a sign followed by at least four digits.
pub open spec fn is_year_text(y: Seq<char>) -> bool {
    ||| y.len() == 4 && forall|i: int| 0 <= i < 4 ==> is_digit(#[trigger] y[i])
    ||| y.len() >= 5 && (y[0] == '+' || y[0] == '-') && forall|i: int|
        1 <= i < y.len() ==> is_digit(#[trigger] y[i])
}

/// What chrono writes for `%m%d-%H%M%S%.3f`: month and day (two digits
/// each), `-`, hour, minute and second (two digits each), `.`, and three
/// digits of milliseconds.
pub open spec fn is_time_of_year_text(t: Seq<char>) -> bool {
    &&& t.len() == 15
    &&& forall|i: int| 0 <= i < 4 ==> is_digit(#[trigger] t[i])
    &&& t[4] == '-'
    &&& forall|i: int| 5 <= i < 11 ==> is_digit(#[trigger] t[i])
    &&& t[11] == '.'
    &&& forall|i: int| 12 <= i < 15 ==> is_digit(#[trigger] t[i])
}

/// A time stamp in the form `%Y%m%d-%H%M%S%.3f`: a year text followed by
/// the 15 characters of month, day, time and milliseconds.
pub open spec fn is_backup_stamp(s: Seq<char>) -> bool {
    &&& s.len() >= 19
    &&& is_year_text(s.take(s.len() - 15))
    &&& is_time_of_year_text(s.skip(s.len() - 15))
}

/// The chrono format of the time stamp in backup file names.
pub const BACKUP_STAMP_FORMAT: &'static str = "%Y%m%d-%H%M%S%.3f";

/// `chrono::Utc::now().format(pattern)`, rendered to text, for the backup
/// time-stamp pattern only.
///
/// The time itself depends on the call and is not claimed. What is claimed
/// is the shape chrono writes for this pattern: the year (four digits, or a
/// sign and at least four digits outside 0 ..= 9999), then two digits each
/// of month and day, `-`, two digits each of hour, minute and second, `.`,
/// and three digits of milliseconds.
#[verifier::external_body]
pub(crate) fn utc_now_formatted(pattern: &str) -> (res: String)
    requires
        pattern@ == BACKUP_STAMP_FORMAT@,
    ensures
        is_backup_stamp(res@),
{
    chrono::Utc::now().format(pattern).to_string()
}

/// What `str::to_lowercase` returns for a text: its Unicode lower-case
/// mapping. It depends on the text alone.
pub uninterp spec fn lowercase_text(s: Seq<char>) -> Seq<char>;

/// A text of ASCII characters only.
pub open spec fn is_ascii_text(s: Seq<char>) -> bool {
    forall|i: int| 0 <= i < s.len() ==> (#[trigger] s[i] as u32) < 128
}

/// A text with `A`..`Z` replaced by `a`..`z`.
pub open spec fn ascii_lowercase(s: Seq<char>) -> Seq<char> {
    Seq::new(
        s.len(),
        |i: int| if 'A' <= s[i] <= 'Z' { ((s[i] as u32) + 32) as char } else { s[i] },
    )
}

/// `str::to_lowercase`; its result is the named mapping of its argument.
/// On an ASCII text the Unicode lower-case mapping replaces `A`..`Z` by
/// `a`..`z` and leaves every other character as it is; that much is
/// claimed.
#[verifier::external_body]
pub(crate) fn to_lowercase(s: &str) -> (res: String)
    ensures
        res@ == lowercase_text(s@),
        is_ascii_text(s@) ==> res@ == ascii_lowercase(s@),
{
    s.to_lowercase()
}

} // verus!
