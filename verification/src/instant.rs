//! Instants in time as plain values, and the calls into `chrono` that
//! format them, read the clock and look up the local offset.

use chrono::{Offset, TimeZone};
use std::fmt::Write;
use vstd::prelude::*;

verus! {

/// Earliest timestamp a `chrono` date-time can hold (January 1 of year -262143).
pub const MIN_TIMESTAMP: i64 = -8_334_601_228_800;

/// Latest whole-second timestamp a `chrono` date-time can hold (December 31, 262142).
pub const MAX_TIMESTAMP: i64 = 8_210_266_876_799;

/// Largest whole number of seconds a `chrono::TimeDelta` can hold (`i64::MAX` milliseconds).
pub const MAX_DELTA_SECONDS: i64 = 9_223_372_036_854_775;

/// Timestamp of 0000-01-01T00:00:00.
pub const YEAR_0_START: i64 = -62_167_219_200;

/// Timestamp of 10000-01-01T00:00:00.
pub const YEAR_10000_START: i64 = 253_402_300_800;

/// Which (seconds, nanoseconds) pairs `DateTime::<Utc>::from_timestamp` accepts:
/// seconds within the supported years, and a nanosecond part below two seconds
/// whose second half (a leap second) only follows a 59th second.
pub open spec fn valid_timestamp(secs: int, nanos: int) -> bool {
    &&& MIN_TIMESTAMP <= secs <= MAX_TIMESTAMP
    &&& 0 <= nanos < 2_000_000_000
    &&& (nanos >= 1_000_000_000 ==> secs % 60 == 59)
}

/// Milliseconds since the epoch, as `timestamp_millis` counts them.
pub open spec fn millis_of(t: (int, int)) -> int {
    t.0 * 1000 + t.1 / 1_000_000
}

/// Microseconds since the epoch, as `timestamp_micros` counts them.
pub open spec fn micros_of(t: (int, int)) -> int {
    t.0 * 1_000_000 + t.1 / 1000
}

/// Whether `v` fits in an `i64`.
pub open spec fn fits_i64(v: int) -> bool {
    i64::MIN <= v <= i64::MAX
}

/// Nanoseconds since the epoch as `timestamp_nanos_opt` computes them:
/// for a negative timestamp one second moves into the fraction first, and
/// the result is `None` when either step leaves the `i64` range.
pub open spec fn nanos_of(t: (int, int)) -> Option<int> {
    let whole = if t.0 < 0 { t.0 + 1 } else { t.0 };
    let frac = if t.0 < 0 { t.1 - 1_000_000_000 } else { t.1 };
    if fits_i64(whole * 1_000_000_000) && fits_i64(whole * 1_000_000_000 + frac) {
        Some(whole * 1_000_000_000 + frac)
    } else {
        None
    }
}

/// Whether the strftime-style `pattern` is made only of literal text and the
/// specifiers `%Y %m %d %H %M %S %I %p %a %b %e %Z %-m %-d`.
pub open spec fn simple_pattern(p: Seq<char>) -> bool {
    forall|i: int|
        0 <= i < p.len() && #[trigger] p[i] == '%' ==> {
            ||| (i + 1 < p.len() && simple_specifier(p[i + 1]))
            ||| (i + 2 < p.len() && p[i + 1] == '-' && (p[i + 2] == 'm' || p[i + 2] == 'd'))
        }
}

/// The specifier letters `simple_pattern` admits after a `%`.
pub open spec fn simple_specifier(c: char) -> bool {
    ||| c == 'Y'
    ||| c == 'm'
    ||| c == 'd'
    ||| c == 'H'
    ||| c == 'M'
    ||| c == 'S'
    ||| c == 'I'
    ||| c == 'p'
    ||| c == 'a'
    ||| c == 'b'
    ||| c == 'e'
    ||| c == 'Z'
}

/// Whether `chrono`'s strftime parser reads `pattern` without an error item.
pub uninterp spec fn chrono_pattern_ok(pattern: Seq<char>) -> bool;

/// The text `chrono` gives a UTC date-time (seconds, nanoseconds) formatted with `pattern`.
pub uninterp spec fn chrono_utc_text(instant: (int, int), pattern: Seq<char>) -> Seq<char>;

/// The text `chrono` gives a local date-time (seconds, nanoseconds, offset from UTC in
/// seconds) formatted with `pattern`.
pub uninterp spec fn chrono_local_text(local: (int, int, int), pattern: Seq<char>) -> Seq<char>;

/// The RFC 2822 text `chrono` gives a local date-time.
pub uninterp spec fn chrono_rfc2822(local: (int, int, int)) -> Seq<char>;

/// The RFC 3339 text, whole seconds and `Z` for UTC, that `chrono` gives a UTC date-time.
pub uninterp spec fn chrono_rfc3339_secs_z(instant: (int, int)) -> Seq<char>;

/// An instant moved by `delta` whole seconds, as `chrono`'s time arithmetic moves
/// it: a leap second (nanoseconds of one second or more) is first left for the
/// second after it when moving forward, and for the second it repeats when
/// moving back; a zero move keeps it.
pub open spec fn shifted(t: (int, int), delta: int) -> (int, int) {
    if t.1 >= 1_000_000_000 && delta > 0 {
        (t.0 + delta, t.1 - 1_000_000_000)
    } else if t.1 >= 1_000_000_000 && delta < 0 {
        (t.0 + 1 + delta, t.1 - 1_000_000_000)
    } else {
        (t.0 + delta, t.1)
    }
}

/// `t` moved by `delta` seconds, or `None` when that leaves the supported years.
pub open spec fn add_seconds_spec(t: (int, int), delta: int) -> Option<(int, int)> {
    let s = shifted(t, delta);
    if MIN_TIMESTAMP <= s.0 <= MAX_TIMESTAMP {
        Some(s)
    } else {
        None
    }
}

/// A point in time: seconds since the Unix epoch and a nanosecond part, as a
/// `chrono::DateTime<Utc>` holds them.
#[derive(Clone, Copy, Debug, PartialEq, Eq)]
pub struct UtcTime {
    secs: i64,
    nanos: u32,
}

impl View for UtcTime {
    type V = (int, int);

    closed spec fn view(&self) -> (int, int) {
        (self.secs as int, self.nanos as int)
    }
}

impl UtcTime {
    #[verifier::type_invariant]
    spec fn inv(self) -> bool {
        valid_timestamp(self.secs as int, self.nanos as int)
    }

    /// The instant `secs` seconds and `nanos` nanoseconds after the epoch, or
    /// `None` where `DateTime::<Utc>::from_timestamp` refuses the pair.
    pub fn from_timestamp(secs: i64, nanos: u32) -> (r: Option<UtcTime>)
        ensures
            r is Some <==> valid_timestamp(secs as int, nanos as int),
            r matches Some(t) ==> t@ == (secs as int, nanos as int),
    {
        if MIN_TIMESTAMP <= secs && secs <= MAX_TIMESTAMP && nanos < 2_000_000_000 && (nanos
            < 1_000_000_000 || secs % 60 == 59 || secs % 60 == -1) {
            proof {
                assert(nanos >= 1_000_000_000 ==> (secs as int) % 60 == 59);
            }
            Some(UtcTime { secs, nanos })
        } else {
            None
        }
    }

    /// Whole seconds since the epoch.
    pub fn timestamp(&self) -> (r: i64)
        ensures
            r == self@.0,
            valid_timestamp(self@.0, self@.1),
    {
        proof {
            use_type_invariant(self);
        }
        self.secs
    }

    /// The nanosecond part (above 999,999,999 only within a leap second).
    pub fn subsec_nanos(&self) -> (r: u32)
        ensures
            r == self@.1,
            valid_timestamp(self@.0, self@.1),
    {
        proof {
            use_type_invariant(self);
        }
        self.nanos
    }

    /// Milliseconds since the epoch.
    pub fn timestamp_millis(&self) -> (r: i64)
        ensures
            r == millis_of(self@),
    {
        proof {
            use_type_invariant(self);
        }
        self.secs * 1000 + (self.nanos / 1_000_000) as i64
    }

    /// Microseconds since the epoch.
    pub fn timestamp_micros(&self) -> (r: i64)
        ensures
            r == micros_of(self@),
    {
        proof {
            use_type_invariant(self);
        }
        self.secs * 1_000_000 + (self.nanos / 1000) as i64
    }

    /// Nanoseconds since the epoch, or `None` outside the `i64` range.
    pub fn timestamp_nanos(&self) -> (r: Option<i64>)
        ensures
            r matches Some(v) ==> nanos_of(self@) == Some(v as int),
            r is None ==> nanos_of(self@) is None,
    {
        proof {
            use_type_invariant(self);
        }
        let mut whole = self.secs;
        let mut frac = self.nanos as i64;
        if whole < 0 {
            frac = frac - 1_000_000_000;
            whole = whole + 1;
        }
        match whole.checked_mul(1_000_000_000) {
            Some(scaled) => match scaled.checked_add(frac) {
                Some(v) => Some(v),
                None => None,
            },
            None => None,
        }
    }

    /// Reads the system clock: an instant at or after the epoch, within the
    /// supported years, and not inside a leap second. Which instant is not
    /// stated: it depends on the clock.
    pub fn now() -> (r: UtcTime)
        ensures
            0 <= r@.0 <= MAX_TIMESTAMP,
            r@.1 < 1_000_000_000,
    {
        let (secs, nanos) = clock_now();
        UtcTime { secs, nanos }
    }

    /// This instant moved by `delta` whole seconds, or `None` when the result
    /// leaves the supported range.
    pub fn checked_add_seconds(&self, delta: i64) -> (r: Option<UtcTime>)
        requires
            -MAX_DELTA_SECONDS <= delta <= MAX_DELTA_SECONDS,
        ensures
            r is Some <==> add_seconds_spec(self@, delta as int) is Some,
            r matches Some(t) ==> add_seconds_spec(self@, delta as int) == Some(t@),
    {
        proof {
            use_type_invariant(self);
        }
        match add_seconds(self, delta) {
            Some((secs, nanos)) => {
                assert(valid_timestamp(secs as int, nanos as int)) by {
                    if self@.1 >= 1_000_000_000 && delta == 0 {
                        assert(secs == self@.0);
                    }
                }
                UtcTime::from_timestamp(secs, nanos)
            },
            None => None,
        }
    }
}

/// The current time from `chrono::Utc::now`, as seconds and nanoseconds.
/// The contract claims what `Utc::now` builds its value from: a system time
/// after the epoch, whose nanosecond part is below one second. Which instant
/// comes back is not stated. `Utc::now` panics on a system clock before 1970
/// or past the supported years; no `requires` can rule that out, since it is
/// the machine's clock.
#[verifier::external_body]
fn clock_now() -> (r: (i64, u32))
    ensures
        0 <= r.0 <= MAX_TIMESTAMP,
        r.1 < 1_000_000_000,
{
    let now = chrono::Utc::now();
    (now.timestamp(), now.timestamp_subsec_nanos())
}

/// `DateTime::<Utc>::checked_add_signed` with `TimeDelta::seconds(delta)`, as
/// seconds and nanoseconds. The contract claims what `NaiveTime`'s and
/// `NaiveDate`'s arithmetic in the source shows for a whole number of seconds:
/// the result is `shifted(t, delta)`, and `None` exactly when that leaves the
/// range of dates.
#[verifier::external_body]
fn add_seconds(t: &UtcTime, delta: i64) -> (r: Option<(i64, u32)>)
    requires
        -MAX_DELTA_SECONDS <= delta <= MAX_DELTA_SECONDS,
    ensures
        r is Some <==> add_seconds_spec(t@, delta as int) is Some,
        r matches Some(p) ==> add_seconds_spec(t@, delta as int) == Some((p.0 as int, p.1 as int)),
{
    let dt = chrono::DateTime::from_timestamp(t.secs, t.nanos).unwrap();
    dt.checked_add_signed(chrono::TimeDelta::seconds(delta)).map(
        |d| (d.timestamp(), d.timestamp_subsec_nanos()),
    )
}

/// The same instant seen from a fixed offset east of UTC, as a
/// `chrono::DateTime<Local>` holds it.
#[derive(Clone, Copy, Debug)]
pub struct LocalTime {
    utc: UtcTime,
    offset: i32,
}

impl View for LocalTime {
    type V = (int, int, int);

    closed spec fn view(&self) -> (int, int, int) {
        (self.utc@.0, self.utc@.1, self.offset as int)
    }
}

/// The seconds of a local date-time counted as if its wall clock were UTC.
pub open spec fn wall_seconds(l: (int, int, int)) -> int {
    l.0 + l.2
}

impl LocalTime {
    #[verifier::type_invariant]
    spec fn inv(self) -> bool {
        -86_400 < self.offset < 86_400
    }

    /// `utc` seen from `offset` seconds east of UTC, or `None` where
    /// `FixedOffset::east_opt` refuses the offset.
    pub fn with_offset(utc: &UtcTime, offset: i32) -> (r: Option<LocalTime>)
        ensures
            r is Some <==> -86_400 < offset < 86_400,
            r matches Some(l) ==> l@ == (utc@.0, utc@.1, offset as int),
    {
        if -86_400 < offset && offset < 86_400 {
            Some(LocalTime { utc: *utc, offset })
        } else {
            None
        }
    }

    /// `utc` in the machine's local time zone (`utc.with_timezone(&Local)`).
    pub fn of(utc: &UtcTime) -> (r: LocalTime)
        ensures
            r@.0 == utc@.0,
            r@.1 == utc@.1,
            -86_400 < r@.2 < 86_400,
    {
        let offset = local_offset_at(utc);
        LocalTime { utc: *utc, offset }
    }

    /// The instant, in UTC.
    pub fn utc(&self) -> (r: UtcTime)
        ensures
            r@ == (self@.0, self@.1),
    {
        self.utc
    }

    /// Seconds east of UTC.
    pub fn offset_seconds(&self) -> (r: i32)
        ensures
            r == self@.2,
            -86_400 < r < 86_400,
    {
        proof {
            use_type_invariant(self);
        }
        self.offset
    }
}

/// `Local.offset_from_utc_datetime`: the machine's offset from UTC, in seconds,
/// at instant `t`. The contract claims only the bound that `FixedOffset` keeps;
/// the value depends on the time zone database of the machine.
#[verifier::external_body]
fn local_offset_at(t: &UtcTime) -> (r: i32)
    ensures
        -86_400 < r < 86_400,
{
    let dt = chrono::DateTime::from_timestamp(t.secs, t.nanos).unwrap();
    chrono::Local.offset_from_utc_datetime(&dt.naive_utc()).fix().local_minus_utc()
}

/// `StrftimeItems::new(pattern)` scanned for an error item. The contract claims
/// that the answer is a function of the pattern alone.
#[verifier::external_body]
pub(crate) fn strftime_pattern_ok(pattern: &str) -> (r: bool)
    ensures
        r == chrono_pattern_ok(pattern@),
{
    for item in chrono::format::StrftimeItems::new(pattern) {
        if let chrono::format::Item::Error = item {
            return false;
        }
    }
    true
}

/// `DateTime::<Utc>::format(pattern)` written out. The contract claims that the
/// text is a function of the instant and the pattern; that, since formatting a
/// full date-time fails only on an error item of the pattern, it succeeds exactly
/// when the pattern parses; and that the simple specifiers parse.
#[verifier::external_body]
pub(crate) fn format_utc(t: &UtcTime, pattern: &str) -> (r: Option<String>)
    ensures
        r is Some <==> chrono_pattern_ok(pattern@),
        simple_pattern(pattern@) ==> r is Some,
        r matches Some(s) ==> s@ == chrono_utc_text(t@, pattern@),
{
    let dt = chrono::DateTime::from_timestamp(t.secs, t.nanos).unwrap();
    let mut out = String::new();
    match write!(out, "{}", dt.format(pattern)) {
        Ok(()) => Some(out),
        Err(_) => None,
    }
}

/// `DateTime::<Local>::format(pattern)` written out, for the local date-time
/// rebuilt from its instant and offset. The contract claims what `format_utc`
/// claims, for the local date-time.
#[verifier::external_body]
pub(crate) fn format_local(l: &LocalTime, pattern: &str) -> (r: Option<String>)
    ensures
        r is Some <==> chrono_pattern_ok(pattern@),
        simple_pattern(pattern@) ==> r is Some,
        r matches Some(s) ==> s@ == chrono_local_text(l@, pattern@),
{
    let utc = chrono::DateTime::from_timestamp(l.utc.secs, l.utc.nanos).unwrap();
    let off = chrono::FixedOffset::east_opt(l.offset).unwrap();
    let dt = chrono::DateTime::<chrono::Local>::from_naive_utc_and_offset(utc.naive_utc(), off);
    let mut out = String::new();
    match write!(out, "{}", dt.format(pattern)) {
        Ok(()) => Some(out),
        Err(_) => None,
    }
}

/// `DateTime::<Local>::to_rfc2822`, which panics outside the years 0 to 9999;
/// `requires` keeps to those years of the local wall clock. The contract claims
/// that the text is a function of the local date-time.
#[verifier::external_body]
pub(crate) fn rfc2822_local(l: &LocalTime) -> (r: String)
    requires
        YEAR_0_START <= wall_seconds(l@) < YEAR_10000_START,
    ensures
        r@ == chrono_rfc2822(l@),
{
    let utc = chrono::DateTime::from_timestamp(l.utc.secs, l.utc.nanos).unwrap();
    let off = chrono::FixedOffset::east_opt(l.offset).unwrap();
    chrono::DateTime::<chrono::Local>::from_naive_utc_and_offset(utc.naive_utc(), off).to_rfc2822()
}

/// `DateTime::<Utc>::to_rfc3339_opts(SecondsFormat::Secs, true)`. The contract
/// claims that the text is a function of the instant.
#[verifier::external_body]
pub(crate) fn rfc3339_secs_z(t: &UtcTime) -> (r: String)
    ensures
        r@ == chrono_rfc3339_secs_z(t@),
{
    let dt = chrono::DateTime::from_timestamp(t.secs, t.nanos).unwrap();
    dt.to_rfc3339_opts(chrono::SecondsFormat::Secs, true)
}

} // verus!
