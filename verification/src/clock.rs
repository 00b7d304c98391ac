//! The time stamp of a check: the system clock read as an RFC 3339 date and
//! time in UTC.

use vstd::prelude::*;

use crate::text::digit_char;

verus! {

/// The last second whose year has four digits: 9999-12-31T23:59:59Z.
pub const LAST_FOUR_DIGIT_YEAR_SECOND: u64 = 253402300799;

/// The `width` last decimal digits of `n`, with leading zeros.
pub open spec fn padded(n: nat, width: nat) -> Seq<char>
    decreases width,
{
    if width == 0 {
        Seq::empty()
    } else {
        padded(n / 10, (width - 1) as nat).push(digit_char(n % 10))
    }
}

/// The fraction of a second as written: nothing for a whole second, else a
/// dot and milliseconds, microseconds or nanoseconds, whichever is exact.
pub open spec fn fraction(nanos: nat) -> Seq<char> {
    if nanos == 0 {
        Seq::empty()
    } else if nanos % 1_000_000 == 0 {
        seq!['.'] + padded(nanos / 1_000_000, 3)
    } else if nanos % 1_000 == 0 {
        seq!['.'] + padded(nanos / 1_000, 6)
    } else {
        seq!['.'] + padded(nanos, 9)
    }
}

/// `HH:MM:SS` of the second `secs` after the epoch.
pub open spec fn time_of_day(secs: nat) -> Seq<char> {
    let d = secs % 86400;
    padded(d / 3600, 2) + seq![':'] + padded((d % 3600) / 60, 2) + seq![':'] + padded(d % 60, 2)
}

/// A decimal digit.
pub open spec fn is_digit(c: char) -> bool {
    '0' <= c && c <= '9'
}

/// The number that the two digits at `i` and `i + 1` of `t` write.
pub open spec fn two_digit_value(t: Seq<char>, i: int) -> int {
    ((t[i] as int) - 48) * 10 + ((t[i + 1] as int) - 48)
}

/// `t` has the RFC 3339 form of the instant `secs` seconds and `nanos`
/// nanoseconds after the epoch in UTC: a four-digit year, a month from 01
/// to 12 and a day from 01 to 31, `T`, the time of day of `secs`, the
/// fraction of `nanos`, and `+00:00`.
pub open spec fn has_rfc3339_utc_form(t: Seq<char>, secs: nat, nanos: nat) -> bool {
    let f = fraction(nanos);
    &&& t.len() == 25 + f.len()
    &&& is_digit(t[0]) && is_digit(t[1]) && is_digit(t[2]) && is_digit(t[3])
    &&& t[4] == '-' && is_digit(t[5]) && is_digit(t[6])
    &&& 1 <= two_digit_value(t, 5) <= 12
    &&& t[7] == '-' && is_digit(t[8]) && is_digit(t[9])
    &&& 1 <= two_digit_value(t, 8) <= 31
    &&& t[10] == 'T'
    &&& t.subrange(11, 19) == time_of_day(secs)
    &&& t.subrange(19, 19 + f.len() as int) == f
    &&& t.subrange(19 + f.len() as int, t.len() as int) == "+00:00"@
}

/// The text that `chrono::DateTime::from_timestamp(secs, nanos)` followed by
/// `to_rfc3339` gives, or `None` where `from_timestamp` gives none.
pub uninterp spec fn chrono_rfc3339(secs: i64, nanos: u32) -> Option<Seq<char>>;

/// The characters of an optional string.
pub open spec fn text_of(t: Option<String>) -> Option<Seq<char>> {
    match t {
        Some(s) => Some(s@),
        None => None,
    }
}

/// `t` is a time stamp that chrono writes for an instant at or after the
/// epoch, of RFC 3339 UTC form where the year has four digits.
pub open spec fn is_clock_timestamp(t: Seq<char>) -> bool {
    exists|secs: i64, nanos: u32|
        0 <= secs && nanos < 1_000_000_000 && #[trigger] chrono_rfc3339(secs, nanos) == Some(t)
            && (secs <= LAST_FOUR_DIGIT_YEAR_SECOND ==> has_rfc3339_utc_form(
            t,
            secs as nat,
            nanos as nat,
        ))
}

#[verifier::external_type_specification]
#[verifier::external_body]
pub struct ExSystemTime(std::time::SystemTime);

/// `SystemTime::now()`: the current time of the system clock; nothing is
/// stated of it.
#[verifier::external_body]
fn system_time_now() -> std::time::SystemTime {
    std::time::SystemTime::now()
}

/// `SystemTime::duration_since(UNIX_EPOCH)`: the time since 1970, and
/// `None` where `t` is earlier; the duration is not stated.
#[verifier::external_body]
fn duration_since_epoch(t: &std::time::SystemTime) -> Option<core::time::Duration> {
    t.duration_since(std::time::UNIX_EPOCH).ok()
}

/// `Duration::as_secs`: the whole seconds of a duration; not stated.
pub assume_specification[ core::time::Duration::as_secs ](d: &core::time::Duration) -> u64;

/// `Duration::subsec_nanos`: the fraction of a second of a duration, in
/// nanoseconds, which is below one billion.
pub assume_specification[ core::time::Duration::subsec_nanos ](d: &core::time::Duration) -> (n: u32)
    ensures
        n < 1_000_000_000,
;

/// `chrono::DateTime::from_timestamp(secs, nanos)` followed by
/// `to_rfc3339`: the text is `chrono_rfc3339(secs, nanos)`. For an instant
/// from 1970 through 9999 with nanoseconds below one billion it is present
/// and has the form of `has_rfc3339_utc_form`. Neither call panics.
#[verifier::external_body]
fn rfc3339_utc(secs: i64, nanos: u32) -> (t: Option<String>)
    ensures
        text_of(t) == chrono_rfc3339(secs, nanos),
        0 <= secs <= LAST_FOUR_DIGIT_YEAR_SECOND && nanos < 1_000_000_000 ==> t is Some,
        t matches Some(s) ==> (0 <= secs <= LAST_FOUR_DIGIT_YEAR_SECOND && nanos < 1_000_000_000
            ==> has_rfc3339_utc_form(s@, secs as nat, nanos as nat)),
{
    match chrono::DateTime::from_timestamp(secs, nanos) {
        Some(d) => Some(d.to_rfc3339()),
        None => None,
    }
}

/// The RFC 3339 UTC text of the instant `secs` seconds and `nanos`
/// nanoseconds after the epoch, as chrono writes it; `None` where chrono
/// writes none, or where `secs` does not fit in an `i64`.
pub fn format_timestamp(secs: u64, nanos: u32) -> (t: Option<String>)
    ensures
        text_of(t) == (if secs <= i64::MAX {
            chrono_rfc3339(secs as i64, nanos)
        } else {
            None
        }),
        secs <= LAST_FOUR_DIGIT_YEAR_SECOND && nanos < 1_000_000_000 ==> (t matches Some(s)
            && has_rfc3339_utc_form(s@, secs as nat, nanos as nat)),
{
    if secs <= i64::MAX as u64 {
        rfc3339_utc(secs as i64, nanos)
    } else {
        None
    }
}

/// Why the clock gave no time stamp.
pub enum ClockError {
    /// The system clock reads a time before 1970.
    BeforeEpoch,
    /// The system clock reads a time that chrono cannot write.
    OutOfRange { seconds: u64, nanos: u32 },
}

/// The current time as chrono writes it in RFC 3339 UTC form, or why there
/// is none.
pub fn current_timestamp() -> (t: Result<String, ClockError>)
    ensures
        t matches Ok(s) ==> is_clock_timestamp(s@),
        t matches Err(ClockError::OutOfRange { seconds, nanos }) ==> seconds
            > LAST_FOUR_DIGIT_YEAR_SECOND && (seconds > i64::MAX || chrono_rfc3339(
            seconds as i64,
            nanos,
        ) is None),
{
    let now = system_time_now();
    match duration_since_epoch(&now) {
        None => Err(ClockError::BeforeEpoch),
        Some(d) => {
            let secs = d.as_secs();
            let nanos = d.subsec_nanos();
            match format_timestamp(secs, nanos) {
                Some(s) => {
                    assert(chrono_rfc3339(secs as i64, nanos) == Some(s@));
                    Ok(s)
                },
                None => Err(ClockError::OutOfRange { seconds: secs, nanos }),
            }
        },
    }
}

} // verus!
