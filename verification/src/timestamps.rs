//! Points in time as text.
use vstd::prelude::*;
use crate::shared::epoch_millis;

verus! {

/// The last millisecond of the last year that can be printed, 262142.
pub const LAST_PRINTABLE_MS: i64 = 8_210_266_876_799_999;

/// What `chrono` prints for a number of milliseconds since the epoch, in UTC to the millisecond
/// with a trailing `Z`; nothing where the number is out of its range.
pub uninterp spec fn rfc3339_of_ms(ms: i64) -> Option<Seq<char>>;

/// Calls `chrono`'s `Utc.timestamp_millis_opt` and, on the point in time that it gives,
/// `to_rfc3339_opts` with milliseconds and `Z`. Claimed: the result is a function of the number
/// alone; there is one from the epoch to the end of the last year that `chrono` knows; and a text
/// has the date, a `T`, the time and a trailing `Z`, 24 characters at least. Its digits are left
/// unsaid.
#[verifier::external_body]
pub(crate) fn timestamp_from_ms(ms: i64) -> (r: Option<String>)
    ensures
        match (r, rfc3339_of_ms(ms)) {
            (Some(t), Some(s)) => t@ == s,
            (None, None) => true,
            _ => false,
        },
        0 <= ms <= LAST_PRINTABLE_MS ==> r is Some,
        r matches Some(t) ==> t@.len() >= 24 && t@.last() == 'Z' && t@.contains('T'),
{
    chrono::TimeZone::timestamp_millis_opt(&chrono::Utc, ms).single().map(
        |dt| dt.to_rfc3339_opts(chrono::SecondsFormat::Millis, true),
    )
}

/// What `chrono` prints for a number of milliseconds since the epoch by the pattern
/// `%Y%m%dT%H%M%SZ`, in UTC; nothing where the number is out of its range.
pub uninterp spec fn compact_of_ms(ms: i64) -> Option<Seq<char>>;

/// Calls `chrono`'s `Utc.timestamp_millis_opt` and, on the point in time that it gives, `format`
/// with the pattern `%Y%m%dT%H%M%SZ`. Claimed: the result is a function of the number alone; there
/// is one from the epoch to the end of the last year that `chrono` knows; and a text has the date,
/// a `T`, the time and a trailing `Z`, 16 characters at least. Its digits are left unsaid.
#[verifier::external_body]
pub(crate) fn compact_from_ms(ms: i64) -> (r: Option<String>)
    ensures
        match (r, compact_of_ms(ms)) {
            (Some(t), Some(s)) => t@ == s,
            (None, None) => true,
            _ => false,
        },
        0 <= ms <= LAST_PRINTABLE_MS ==> r is Some,
        r matches Some(t) ==> t@.len() >= 16 && t@.last() == 'Z' && t@.contains('T'),
{
    chrono::TimeZone::timestamp_millis_opt(&chrono::Utc, ms).single().map(
        |dt| dt.format("%Y%m%dT%H%M%SZ").to_string(),
    )
}

/// The milliseconds that a reading of the clock is printed as: the epoch for a clock before it,
/// and the last printable millisecond for one past that.
pub open spec fn stamp_ms(reading: Option<u128>) -> i64 {
    match reading {
        Some(m) => if m <= LAST_PRINTABLE_MS {
            m as i64
        } else {
            LAST_PRINTABLE_MS
        },
        None => 0,
    }
}

/// Whether a text is the print of a point in time: it ends in `Z` and holds a `T`.
pub open spec fn is_stamp(text: Seq<char>) -> bool {
    &&& exists|ms: i64|
        0 <= ms <= LAST_PRINTABLE_MS && #[trigger] rfc3339_of_ms(ms) == Some(text)
    &&& text.len() >= 24
    &&& text.last() == 'Z'
    &&& text.contains('T')
}

/// The milliseconds that a reading of the clock is printed as.
fn printed_ms(reading: Option<u128>) -> (r: i64)
    ensures
        r == stamp_ms(reading),
        0 <= r <= LAST_PRINTABLE_MS,
{
    match reading {
        Some(m) => if m <= LAST_PRINTABLE_MS as u128 {
            m as i64
        } else {
            LAST_PRINTABLE_MS
        },
        None => 0,
    }
}

/// A reading of the clock in print.
pub fn stamp_of(reading: Option<u128>) -> (r: String)
    ensures
        rfc3339_of_ms(stamp_ms(reading)) == Some(r@),
        is_stamp(r@),
{
    timestamp_from_ms(printed_ms(reading)).unwrap()
}

/// The current time in print.
pub fn utc_now() -> (r: String)
    ensures
        is_stamp(r@),
{
    stamp_of(epoch_millis())
}

/// Whether a text is the short print of a point in time, to the second: it ends in `Z` and holds a
/// `T`.
pub open spec fn is_session_stamp(text: Seq<char>) -> bool {
    &&& exists|ms: i64|
        0 <= ms <= LAST_PRINTABLE_MS && #[trigger] compact_of_ms(ms) == Some(text)
    &&& text.len() >= 16
    &&& text.last() == 'Z'
    &&& text.contains('T')
}

/// A reading of the clock in short print, to the second.
pub fn session_stamp_of(reading: Option<u128>) -> (r: String)
    ensures
        compact_of_ms(stamp_ms(reading)) == Some(r@),
        is_session_stamp(r@),
{
    compact_from_ms(printed_ms(reading)).unwrap()
}

/// The current time in short print, by which sessions are named.
pub fn session_stamp() -> (r: String)
    ensures
        is_session_stamp(r@),
{
    session_stamp_of(epoch_millis())
}

/// A reading of the clock is printed as the moment that it is, the epoch for one before it, and the
/// end of the last year that can be printed for one after that.
pub proof fn readings_are_printed_as_they_are(m: u128)
    ensures
        m <= 8_210_266_876_799_999 ==> stamp_ms(Some(m)) == m,
        m > 8_210_266_876_799_999 ==> stamp_ms(Some(m)) == 8_210_266_876_799_999,
        stamp_ms(None) == 0,
{
}

} // verus!
