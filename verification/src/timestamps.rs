//! Timestamp parsing and rendering, done by `chrono`. Each result is a
//! function of the call's arguments alone and is named here; the renderers
//! state their output over these names.

use vstd::prelude::*;

use chrono::{DateTime, Utc};

verus! {

/// The instant an RFC 3339 timestamp denotes, as seconds since the Unix
/// epoch and the nanoseconds past that second; `None` where the text does
/// not parse.
pub uninterp spec fn rfc3339_instant(raw: Seq<char>) -> Option<(i64, u32)>;

/// An RFC 3339 timestamp rendered `YYYY-MM-DDTHH:MM:SSZ` (second precision,
/// in the timestamp's own offset, with a literal `Z`); `None` where the text
/// does not parse.
pub uninterp spec fn rfc3339_stamp_text(raw: Seq<char>) -> Option<Seq<char>>;

/// The time of day of an RFC 3339 timestamp rendered `HH:MM:SSZ`; `None`
/// where the text does not parse.
pub uninterp spec fn rfc3339_clock_text(raw: Seq<char>) -> Option<Seq<char>>;

/// The whole seconds from one RFC 3339 timestamp to another (truncated
/// toward zero); `None` where either does not parse.
pub uninterp spec fn rfc3339_seconds_between(start: Seq<char>, end: Seq<char>) -> Option<i64>;

/// A UTC instant, given as seconds and nanoseconds since the Unix epoch,
/// rendered `YYYY-MM-DDTHH:MM:SSZ`; `None` where chrono cannot represent it.
pub uninterp spec fn utc_stamp_text(secs: i64, nanos: u32) -> Option<Seq<char>>;

/// A character of a rendered timestamp: a digit, a year's sign, one of the
/// separators `-`, `T` and `:`, or the `Z` suffix.
pub open spec fn stamp_char(c: char) -> bool {
    ||| 48 <= (c as u32) <= 57
    ||| c == '-'
    ||| c == '+'
    ||| c == 'T'
    ||| c == ':'
    ||| c == 'Z'
}

/// A text made only of the characters of a rendered timestamp; in
/// particular it holds no line break.
pub open spec fn stamp_chars(s: Seq<char>) -> bool {
    forall|i: int| 0 <= i < s.len() ==> stamp_char(#[trigger] s[i])
}

/// `chrono::DateTime::parse_from_rfc3339`, read back as `timestamp()` and
/// `timestamp_subsec_nanos()`. Claims only that the result is the named
/// instant of the text.
#[verifier::external_body]
pub(crate) fn parse_instant(raw: &str) -> (r: Option<(i64, u32)>)
    ensures
        r == rfc3339_instant(raw@),
{
    match DateTime::parse_from_rfc3339(raw) {
        Ok(dt) => Some((dt.timestamp(), dt.timestamp_subsec_nanos())),
        Err(_) => None,
    }
}

/// `chrono::DateTime::parse_from_rfc3339`, then `format("%Y-%m-%dT%H:%M:%SZ")`.
/// Claims that the result is the named rendering of the text, that there
/// is one exactly where the text parses, and that, as chrono's numeric
/// writers show, it holds only digits, the year's sign (`+` or `-`, outside
/// the years 0 to 9999), the `-`, `T` and `:` separators, and `Z`.
#[verifier::external_body]
pub(crate) fn stamp_text(raw: &str) -> (r: Option<String>)
    ensures
        match r {
            Some(t) => rfc3339_stamp_text(raw@) == Some(t@),
            None => rfc3339_stamp_text(raw@) is None,
        },
        r is Some <==> rfc3339_instant(raw@) is Some,
        r matches Some(t) ==> stamp_chars(t@),
{
    match DateTime::parse_from_rfc3339(raw) {
        Ok(dt) => Some(dt.format("%Y-%m-%dT%H:%M:%SZ").to_string()),
        Err(_) => None,
    }
}

/// `chrono::DateTime::parse_from_rfc3339`, then `format("%H:%M:%SZ")`.
/// Claims that the result is the named rendering of the text, that there
/// is one exactly where the text parses, and that it holds only digits,
/// `:` and `Z`.
#[verifier::external_body]
pub(crate) fn clock_text(raw: &str) -> (r: Option<String>)
    ensures
        match r {
            Some(t) => rfc3339_clock_text(raw@) == Some(t@),
            None => rfc3339_clock_text(raw@) is None,
        },
        r is Some <==> rfc3339_instant(raw@) is Some,
        r matches Some(t) ==> stamp_chars(t@),
{
    match DateTime::parse_from_rfc3339(raw) {
        Ok(dt) => Some(dt.format("%H:%M:%SZ").to_string()),
        Err(_) => None,
    }
}

/// `chrono::DateTime::parse_from_rfc3339` on both texts, then
/// `(end - start).num_seconds()`. Claims that the result is the named
/// difference of the two texts; that, as the source shows, there is one
/// exactly where both texts parse; and that, where neither instant falls in
/// a leap second, it is the nanosecond difference of the two instants
/// truncated toward zero to whole seconds. Across a leap second chrono
/// counts the extra second itself; that case is left to the name.
#[verifier::external_body]
pub(crate) fn seconds_between(start: &str, end: &str) -> (r: Option<i64>)
    ensures
        r == rfc3339_seconds_between(start@, end@),
        r is Some <==> (rfc3339_instant(start@) is Some && rfc3339_instant(end@) is Some),
        r is Some ==> ({
            let s = rfc3339_instant(start@)->Some_0;
            let e = rfc3339_instant(end@)->Some_0;
            s.1 < 1_000_000_000 && e.1 < 1_000_000_000 ==> r->Some_0 == whole_seconds_between(s, e)
        }),
{
    match (DateTime::parse_from_rfc3339(start), DateTime::parse_from_rfc3339(end)) {
        (Ok(s), Ok(e)) => Some((e - s).num_seconds()),
        _ => None,
    }
}

/// The whole seconds from one instant to another, each given as seconds
/// and nanoseconds since the epoch: their difference, truncated toward zero.
pub open spec fn whole_seconds_between(start: (i64, u32), end: (i64, u32)) -> int {
    let d = (end.0 - start.0) * 1_000_000_000 + (end.1 - start.1);
    if d >= 0 {
        d / 1_000_000_000
    } else {
        -((-d) / 1_000_000_000)
    }
}

/// `chrono::DateTime::<Utc>::from_timestamp`, then
/// `format("%Y-%m-%dT%H:%M:%SZ")`. Claims that the result is the named
/// rendering, and, as chrono's source shows, that `from_timestamp` gives an
/// instant exactly on the representable inputs: dates from -262143-01-01
/// to +262142-12-31, with fewer than 10^9 nanoseconds, or fewer than
/// 2 * 10^9 (a leap second) where the second is the last of its minute.
/// Like `stamp_text`'s, the rendering holds only digits, the year's sign,
/// the separators and `Z`.
#[verifier::external_body]
pub(crate) fn utc_stamp(secs: i64, nanos: u32) -> (r: Option<String>)
    ensures
        match r {
            Some(t) => utc_stamp_text(secs, nanos) == Some(t@),
            None => utc_stamp_text(secs, nanos) is None,
        },
        r is Some <==> utc_representable(secs, nanos),
        r matches Some(t) ==> stamp_chars(t@),
{
    match DateTime::<Utc>::from_timestamp(secs, nanos) {
        Some(dt) => Some(dt.format("%Y-%m-%dT%H:%M:%SZ").to_string()),
        None => None,
    }
}

/// The first second chrono represents: -262143-01-01T00:00:00Z.
pub const UTC_MIN_SECS: i64 = -8_334_601_228_800;

/// The last second chrono represents: +262142-12-31T23:59:59Z.
pub const UTC_MAX_SECS: i64 = 8_210_266_876_799;

/// An instant that chrono's `DateTime<Utc>` can hold: its day inside
/// chrono's date range, and its nanoseconds below one second, or below two
/// where the second is the 59th of its minute (a leap second).
pub open spec fn utc_representable(secs: i64, nanos: u32) -> bool {
    &&& UTC_MIN_SECS <= secs <= UTC_MAX_SECS
    &&& (nanos < 1_000_000_000 || (nanos < 2_000_000_000 && secs % 60 == 59))
}

/// Whether an instant is one that chrono's `DateTime<Utc>` can hold.
pub fn is_utc_representable(secs: i64, nanos: u32) -> (r: bool)
    ensures
        r == utc_representable(secs, nanos),
{
    if secs < UTC_MIN_SECS || secs > UTC_MAX_SECS {
        return false;
    }
    if nanos < 1_000_000_000 {
        return true;
    }
    if nanos >= 2_000_000_000 {
        return false;
    }
    // `UTC_MIN_SECS` is a whole number of minutes, so shifting by it keeps
    // the second within its minute and makes the value non-negative.
    let shifted: u64 = (secs - UTC_MIN_SECS) as u64;
    assert(shifted == secs - UTC_MIN_SECS);
    assert(shifted % 60 == secs % 60) by {
        vstd::arithmetic::div_mod::lemma_mod_multiples_vanish(138_910_020_480, secs as int, 60);
    }
    shifted % 60 == 59
}

} // verus!
