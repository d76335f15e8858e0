//! Time stamps and identifiers that come from the outside world.
use vstd::prelude::*;

verus! {

/// A UTC instant: whole seconds since the Unix epoch plus the
/// sub-second part in nanoseconds (as `chrono::DateTime<Utc>` holds it).
#[derive(Debug, Clone, Copy, PartialEq, Eq, Structural)]
pub struct Timestamp {
    pub secs: i64,
    pub nanos: u32,
}

/// The instant now, read from the system clock through `chrono::Utc::now`.
///
/// Trusted: `chrono::Utc::now` builds its value with
/// `DateTime::from_timestamp(elapsed.as_secs(), elapsed.subsec_nanos())` from the
/// time elapsed since the epoch and unwraps it, so the seconds are not
/// negative, they lie within what `chrono` represents (its last instant is the
/// end of the year 262142), and the nanoseconds are below one second. Which
/// instant comes back is not stated.
#[verifier::external_body]
pub(crate) fn now_utc() -> (res: Timestamp)
    ensures
        res.secs >= 0,
        res.secs <= 8_210_266_876_799,
        res.nanos < 1_000_000_000,
{
    let t = chrono::Utc::now();
    Timestamp { secs: t.timestamp(), nanos: t.timestamp_subsec_nanos() }
}

/// The instant now as RFC 3339 text (`chrono::Utc::now().to_rfc3339()`).
///
/// Trusted: the text depends on the clock; nothing is stated of it.
#[verifier::external_body]
pub(crate) fn now_rfc3339() -> (res: String) {
    chrono::Utc::now().to_rfc3339()
}

/// The text `chrono` writes for an instant with the pattern
/// `%Y-%m-%d %H:%M:%S UTC`.
pub uninterp spec fn utc_text(secs: i64, nanos: u32) -> Seq<char>;

/// An instant written as `YYYY-MM-DD HH:MM:SS UTC` by `chrono`
/// (`DateTime::<Utc>::from_timestamp(..).format(..)`); the text is named,
/// not stated. An instant that `chrono` cannot represent gives an empty
/// text.
#[verifier::external_body]
pub(crate) fn format_utc(t: Timestamp) -> (res: String)
    ensures
        res@ == utc_text(t.secs, t.nanos),
{
    match chrono::DateTime::<chrono::Utc>::from_timestamp(t.secs, t.nanos) {
        Some(d) => d.format("%Y-%m-%d %H:%M:%S UTC").to_string(),
        None => String::new(),
    }
}

/// Lower-case hexadecimal digits.
pub open spec fn is_lower_hex(c: char) -> bool {
    ('0' <= c && c <= '9') || ('a' <= c && c <= 'f')
}

/// The shape of a hyphenated, lower-case version-4 UUID:
/// `xxxxxxxx-xxxx-4xxx-xxxx-xxxxxxxxxxxx`.
pub open spec fn is_uuid_v4_text(s: Seq<char>) -> bool {
    &&& s.len() == 36
    &&& s[8] == '-' && s[13] == '-' && s[18] == '-' && s[23] == '-'
    &&& s[14] == '4'
    &&& forall|i: int| 0 <= i < 36 && i != 8 && i != 13 && i != 18 && i != 23 ==> is_lower_hex(#[trigger] s[i])
}

/// A fresh random identifier: `uuid::Uuid::new_v4().to_string()`.
///
/// Trusted: `Uuid::new_v4` masks random bits so that the version nibble is 4,
/// and `Display` writes the lower-case hyphenated form. Which identifier comes
/// back is not stated (it is random).
#[verifier::external_body]
pub(crate) fn new_uuid_v4() -> (res: String)
    ensures
        is_uuid_v4_text(res@),
{
    uuid::Uuid::new_v4().to_string()
}

} // verus!
