//! Wall-clock time from the `chrono` crate. An instant is held as plain
//! numbers: whole seconds since the Unix epoch and the nanoseconds past
//! them.

use vstd::prelude::*;

verus! {

/// An instant: seconds since 1970-01-01 00:00:00 UTC, and nanoseconds past
/// that second (at or above one billion only within a leap second).
#[derive(Debug, Clone, Copy, PartialEq, Eq, Structural)]
pub struct Timestamp {
    pub secs: i64,
    pub nanos: u32,
}

/// `std::time::SystemTime`, held opaquely.
#[verifier::external_type_specification]
#[verifier::external_body]
pub struct ExSystemTime(std::time::SystemTime);

/// `std::time::SystemTime::now`: the system clock's current reading. It
/// depends on the clock, so nothing is stated of it.
#[verifier::external_body]
fn system_now() -> std::time::SystemTime {
    std::time::SystemTime::now()
}

/// `std::time::SystemTime::duration_since(UNIX_EPOCH)`: how long after the
/// Unix epoch `t` is; `None` where `t` is before it. `t` is held opaquely, so
/// nothing more is stated of the result.
#[verifier::external_body]
fn since_unix_epoch(t: std::time::SystemTime) -> Option<std::time::Duration> {
    match t.duration_since(std::time::UNIX_EPOCH) {
        Ok(d) => Some(d),
        Err(_) => None,
    }
}

/// `std::time::Duration::as_secs`: the whole seconds of `d`. `d` is held
/// opaquely, so nothing is stated of the result.
#[verifier::external_body]
fn whole_seconds(d: &std::time::Duration) -> u64 {
    d.as_secs()
}

/// `std::time::Duration::subsec_nanos`: the nanoseconds of `d` past its
/// whole seconds, which the documentation gives as below one billion.
#[verifier::external_body]
fn nanos_past_second(d: &std::time::Duration) -> (r: u32)
    ensures
        r < 1_000_000_000,
{
    d.subsec_nanos()
}

/// A reading of the clock that the clock can give: seconds since the Unix
/// epoch and nanoseconds below one billion, or `None` (before the epoch).
pub open spec fn reading_ok(reading: Option<(u64, u32)>) -> bool {
    match reading {
        Some(d) => d.1 < 1_000_000_000,
        None => true,
    }
}

/// The system clock's reading: whole seconds since the Unix epoch and the
/// nanoseconds past them; `None` where the clock reads before the epoch.
pub(crate) fn read_clock() -> (r: Option<(u64, u32)>)
    ensures
        reading_ok(r),
{
    let t = system_now();
    match since_unix_epoch(t) {
        Some(d) => Some((whole_seconds(&d), nanos_past_second(&d))),
        None => None,
    }
}

/// The last second that chrono represents.
pub open spec fn chrono_last_second() -> int {
    8_210_266_876_799
}

/// The instant of a clock reading, as `chrono::Utc::now` makes it: none
/// before the epoch (where `Utc::now` would panic) or beyond chrono's range
/// (where it would panic too).
pub open spec fn timestamp_of_reading(reading: Option<(u64, u32)>) -> Option<Timestamp> {
    match reading {
        Some(d) => if d.0 <= chrono_last_second() {
            Some(Timestamp { secs: d.0 as i64, nanos: d.1 })
        } else {
            None
        },
        None => None,
    }
}

/// The instant of a clock reading; none before the epoch or beyond
/// chrono's range.
pub fn timestamp_from_reading(reading: Option<(u64, u32)>) -> (r: Option<Timestamp>)
    ensures
        r == timestamp_of_reading(reading),
        reading_ok(reading) && r is Some ==> r->0.secs >= 0 && r->0.nanos < 1_000_000_000
            && chrono_represents(r->0.secs, r->0.nanos),
{
    match reading {
        Some((secs, nanos)) => if secs <= 8_210_266_876_799 {
            Some(Timestamp { secs: secs as i64, nanos })
        } else {
            None
        },
        None => None,
    }
}

/// Whether `chrono::DateTime::from_timestamp` accepts the instant of
/// `secs` seconds and `nanos` nanoseconds since the Unix epoch: its date
/// lies between -262143-01-01 and 262142-12-31, and the nanoseconds are
/// below one billion, or below two billion within the last second of a
/// minute (a leap second).
pub open spec fn chrono_represents(secs: i64, nanos: u32) -> bool {
    &&& -8_334_601_228_800 <= secs <= 8_210_266_876_799
    &&& (nanos < 1_000_000_000 || (nanos < 2_000_000_000 && secs % 60 == 59))
}

/// The number of decimal digits of `n`.
pub open spec fn digit_count(n: nat) -> nat
    decreases n,
{
    if n < 10 {
        1
    } else {
        1 + digit_count(n / 10)
    }
}

/// A year as chrono writes it: four digits for the years 0 to 9999, else a
/// sign followed by at least four digits.
pub open spec fn year_text(year: int) -> Seq<char> {
    if 0 <= year <= 9999 {
        decimal(year as nat, 4)
    } else {
        let size = if year < 0 {
            -year
        } else {
            year
        };
        let width = if digit_count(size as nat) > 4 {
            digit_count(size as nat)
        } else {
            4
        };
        seq![
            if year < 0 {
                '-'
            } else {
                '+'
            },
        ] + decimal(size as nat, width)
    }
}

/// `n` written in decimal with exactly `width` digits, zero-padded (the
/// highest digits are dropped when `n` has more).
pub open spec fn decimal(n: nat, width: nat) -> Seq<char>
    decreases width,
{
    if width == 0 {
        Seq::<char>::empty()
    } else {
        decimal(n / 10, (width - 1) as nat).push(((48 + n % 10) as u32) as char)
    }
}

/// The date of the day `days` after 1970-01-01 in the proleptic Gregorian
/// calendar, as year, month and day.
pub open spec fn civil_from_days(days: int) -> (int, int, int) {
    let z = days + 719468;
    let era = z / 146097;
    let doe = z - era * 146097;
    let yoe = (doe - doe / 1460 + doe / 36524 - doe / 146096) / 365;
    let doy = doe - (365 * yoe + yoe / 4 - yoe / 100);
    let mp = (5 * doy + 2) / 153;
    let d = doy - (153 * mp + 2) / 5 + 1;
    let m = if mp < 10 {
        mp + 3
    } else {
        mp - 9
    };
    (yoe + era * 400 + if m <= 2 {
        1int
    } else {
        0int
    }, m, d)
}

/// The calendar date and clock time of the second `local` (seconds since
/// 1970-01-01 00:00:00 on the same clock), `nanos` nanoseconds past it,
/// written `YYYY-MM-DD?hh:mm:ss` with `sep` in place of `?`; within a leap
/// second (`nanos` at or above one billion) the seconds are counted one
/// higher.
pub open spec fn date_time_text(local: int, nanos: u32, sep: char) -> Seq<char> {
    let day = civil_from_days(local / 86400);
    let sod = local % 86400;
    year_text(day.0) + seq!['-'] + decimal(day.1 as nat, 2) + seq!['-'] + decimal(
        day.2 as nat,
        2,
    ) + seq![sep] + decimal((sod / 3600) as nat, 2) + seq![':'] + decimal(
        ((sod % 3600) / 60) as nat,
        2,
    ) + seq![':'] + decimal((sod % 60 + nanos / 1_000_000_000) as nat, 2)
}

/// A UTC offset of `offset` seconds, rounded to the minute and written
/// `+hh:mm` or `-hh:mm`.
pub open spec fn offset_text(offset: int) -> Seq<char> {
    let size = if offset < 0 {
        -offset
    } else {
        offset
    };
    let minutes = (size + 30) / 60;
    seq![
        if offset < 0 {
            '-'
        } else {
            '+'
        },
    ] + decimal((minutes / 60) as nat, 2) + seq![':'] + decimal((minutes % 60) as nat, 2)
}

/// An offset that a time zone can have: under one day either way.
pub open spec fn valid_offset(offset: int) -> bool {
    -86400 < offset < 86400
}

/// The fraction of a second that RFC 3339 text carries for `nanos`
/// nanoseconds: none for a whole second, else milli-, micro- or nanoseconds,
/// whichever is the shortest exact one.
pub open spec fn rfc3339_fraction(nanos: u32) -> Seq<char> {
    if nanos == 0 {
        Seq::<char>::empty()
    } else if nanos % 1_000_000 == 0 {
        seq!['.'] + decimal((nanos / 1_000_000) as nat, 3)
    } else if nanos % 1_000 == 0 {
        seq!['.'] + decimal((nanos / 1_000) as nat, 6)
    } else {
        seq!['.'] + decimal(nanos as nat, 9)
    }
}

/// The RFC 3339 text of the instant `ts` in a time zone `offset` seconds
/// ahead of UTC.
pub open spec fn rfc3339_text_at(ts: Timestamp, offset: int) -> Seq<char> {
    date_time_text(ts.secs + offset, ts.nanos, 'T') + rfc3339_fraction(
        (ts.nanos % 1_000_000_000) as u32,
    ) + offset_text(offset)
}

/// The text `YYYY-MM-DD hh:mm:ss` of the instant `ts` in a time zone
/// `offset` seconds ahead of UTC.
pub open spec fn seconds_text_at(ts: Timestamp, offset: int) -> Seq<char> {
    date_time_text(ts.secs + offset, ts.nanos, ' ')
}

/// `chrono::DateTime::from_timestamp`, moved to the machine's time zone and
/// written with `format("%Y-%m-%d %H:%M:%S")`; `None` where chrono does not
/// represent the instant. The time zone's offset at that instant is the
/// machine's, so the contract states what the source shows of every
/// outcome: when there is a text, which is never empty, and that it is the
/// date and time of the instant moved by some offset under one day.
#[verifier::external_body]
pub(crate) fn local_seconds_text(ts: Timestamp) -> (r: Option<String>)
    ensures
        r is Some <==> chrono_represents(ts.secs, ts.nanos),
        r matches Some(t) ==> t@.len() > 0,
        r matches Some(t) ==> exists|offset: int|
            valid_offset(offset) && t@ == #[trigger] seconds_text_at(ts, offset),
{
    match chrono::DateTime::from_timestamp(ts.secs, ts.nanos) {
        Some(d) => Some(d.with_timezone(&chrono::Local).format("%Y-%m-%d %H:%M:%S").to_string()),
        None => None,
    }
}

/// `chrono::DateTime::from_timestamp`, moved to the machine's time zone and
/// written with `to_rfc3339`; `None` where chrono does not represent the
/// instant. The time zone's offset at that instant is the machine's, so the
/// contract states what the source shows of every outcome: when there is a
/// text, which is never empty, and that it is the date and time of the
/// instant moved by some offset under one day, its fraction of a second,
/// and that offset.
#[verifier::external_body]
pub(crate) fn local_rfc3339_text(ts: Timestamp) -> (r: Option<String>)
    ensures
        r is Some <==> chrono_represents(ts.secs, ts.nanos),
        r matches Some(t) ==> t@.len() > 0,
        r matches Some(t) ==> exists|offset: int|
            valid_offset(offset) && t@ == #[trigger] rfc3339_text_at(ts, offset),
{
    match chrono::DateTime::from_timestamp(ts.secs, ts.nanos) {
        Some(d) => Some(d.with_timezone(&chrono::Local).to_rfc3339()),
        None => None,
    }
}

} // verus!
