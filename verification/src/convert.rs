//! Reading user input as an instant — epoch digits or date strings — and
//! shifting an instant by offsets such as `+2h30m`.

use crate::instant::{
    add_seconds_spec, valid_timestamp, UtcTime, MAX_DELTA_SECONDS, MAX_TIMESTAMP, MIN_TIMESTAMP,
};
use crate::text::{
    all_digits, char_is_digit, digit_char, digit_value, digits_to_u64, digits_value, has_char,
    int_text, is_digit,
    lemma_nat_digits_len, lemma_nat_digits_value, lemma_trim_after_lead, lemma_trim_digits,
    nat_digits, pow10,
    str_all_digits, trim, trim_start, trim_str,
};
use chrono::{Datelike, TimeZone};
use vstd::prelude::*;

verus! {

/// Whether `NaiveDateTime::parse_from_str(input, pattern)` succeeds.
pub uninterp spec fn chrono_datetime_parses(input: Seq<char>, pattern: Seq<char>) -> bool;

/// The wall-clock date-time `NaiveDateTime::parse_from_str(input, pattern)`
/// reads, as the seconds and nanoseconds it would have as a UTC instant.
pub uninterp spec fn chrono_naive_datetime(input: Seq<char>, pattern: Seq<char>) -> (int, int);

/// Whether `NaiveDate::parse_from_str(input, pattern)` succeeds.
pub uninterp spec fn chrono_date_parses(input: Seq<char>, pattern: Seq<char>) -> bool;

/// The date `NaiveDate::parse_from_str(input, pattern)` reads, as its number of
/// days from the Common Era (`num_days_from_ce`).
pub uninterp spec fn chrono_date_days(input: Seq<char>, pattern: Seq<char>) -> int;

/// `num_days_from_ce` of 1970-01-01.
pub const UNIX_EPOCH_DAY: i64 = 719_163;

/// The timestamp of midnight at the start of the day `days` from the Common Era.
pub open spec fn midnight_secs(days: int) -> int {
    (days - UNIX_EPOCH_DAY) * 86_400
}

/// Whether `c` names a complete strftime field after a `%`: year, month, day,
/// hour (24 or 12), minute or second.
pub open spec fn field_letter(c: char) -> bool {
    c == 'Y' || c == 'm' || c == 'd' || c == 'H' || c == 'I' || c == 'M' || c == 'S'
}

/// Whether `pattern` has the separator `c` (`-`, `.`, `/` or `:`) right after
/// a field: a literal that any text the pattern reads must contain.
pub open spec fn needs_char(pattern: Seq<char>, c: char) -> bool {
    &&& (c == '-' || c == '.' || c == '/' || c == ':')
    &&& exists|i: int|
        0 <= i && i + 2 < pattern.len() && #[trigger] pattern[i] == '%' && field_letter(
            pattern[i + 1],
        ) && pattern[i + 2] == c
}

/// Whether `y` is a leap year of the Gregorian calendar.
pub open spec fn is_leap_year(y: int) -> bool {
    (y % 4 == 0 && y % 100 != 0) || y % 400 == 0
}

/// The number of days of month `m` of year `y`.
pub open spec fn month_days(y: int, m: int) -> int {
    if m == 2 {
        if is_leap_year(y) {
            29
        } else {
            28
        }
    } else if m == 4 || m == 6 || m == 9 || m == 11 {
        30
    } else {
        31
    }
}

/// Whether year `y`, month `m`, day `d` is a date of the years 1 to 9999.
pub open spec fn valid_date(y: int, m: int, d: int) -> bool {
    1 <= y <= 9999 && 1 <= m <= 12 && 1 <= d <= month_days(y, m)
}

/// The day number of a Gregorian date counted from the Common Era, with
/// 0001-01-01 as day 1 (what `num_days_from_ce` counts): days since 1970-01-01
/// by the civil-from-days reckoning, plus the day number of 1970-01-01.
pub open spec fn civil_days(y: int, m: int, d: int) -> int {
    let y1 = if m <= 2 {
        y - 1
    } else {
        y
    };
    let era = y1 / 400;
    let yoe = y1 - era * 400;
    let mp = if m > 2 {
        m - 3
    } else {
        m + 9
    };
    let doy = (153 * mp + 2) / 5 + d - 1;
    let doe = yoe * 365 + yoe / 4 - yoe / 100 + doy;
    era * 146_097 + doe - 719_468 + UNIX_EPOCH_DAY
}

/// The year, month and day of a text shaped `MM/DD/YYYY` (digits and two
/// slashes), read month first; `None` for any other shape.
pub open spec fn us_date_fields(s: Seq<char>) -> Option<(int, int, int)> {
    if s.len() == 10 && s[2] == '/' && s[5] == '/' && is_digit(s[0]) && is_digit(s[1]) && is_digit(
        s[3],
    ) && is_digit(s[4]) && is_digit(s[6]) && is_digit(s[7]) && is_digit(s[8]) && is_digit(s[9]) {
        Some(
            (
                digit_value(s[6]) * 1000 + digit_value(s[7]) * 100 + digit_value(s[8]) * 10
                    + digit_value(s[9]),
                digit_value(s[0]) * 10 + digit_value(s[1]),
                digit_value(s[3]) * 10 + digit_value(s[4]),
            ),
        )
    } else {
        None
    }
}

/// The day number `%m/%d/%Y` reads from a text `MM/DD/YYYY` naming a valid
/// date, month first; `None` for another pattern or text.
pub open spec fn us_date_read(pattern: Seq<char>, input: Seq<char>) -> Option<int> {
    match us_date_fields(input) {
        Some(f) => if pattern == "%m/%d/%Y"@ && valid_date(f.0, f.1, f.2) {
            Some(civil_days(f.0, f.1, f.2))
        } else {
            None
        },
        None => None,
    }
}

/// `NaiveDateTime::parse_from_str`, the date-time it reads given as seconds and
/// nanoseconds (`and_utc().timestamp()` and `timestamp_subsec_nanos()`). The
/// contract claims that success and the date-time are functions of the input
/// and the pattern, and that the date-time is one `chrono` can hold: in the
/// supported years, with a leap second only after a 59th second. It also
/// claims, as the parser in `format/parse.rs` shows, that a literal separator
/// after a field must be found in the text (`needs_char`).
#[verifier::external_body]
fn parse_naive_datetime(input: &str, pattern: &str) -> (r: Option<(i64, u32)>)
    ensures
        r is Some <==> chrono_datetime_parses(input@, pattern@),
        r matches Some(p) ==> (p.0 as int, p.1 as int) == chrono_naive_datetime(input@, pattern@)
            && valid_timestamp(p.0 as int, p.1 as int),
        forall|c: char| #[trigger] needs_char(pattern@, c) && !has_char(input@, c) ==> r is None,
{
    chrono::NaiveDateTime::parse_from_str(input, pattern).ok().map(|naive| {
        let as_utc = naive.and_utc();
        (as_utc.timestamp(), as_utc.timestamp_subsec_nanos())
    })
}

/// `NaiveDate::parse_from_str`, the date it reads given as `num_days_from_ce`.
/// The contract claims that success and the date are functions of the input and
/// the pattern, and that the date is one `chrono` can hold, so its midnight
/// lies in the supported years. It also claims two things the parser in
/// `format/parse.rs` shows: a literal separator after a field must be found in
/// the text (`needs_char`), and `%m/%d/%Y` reads a text `MM/DD/YYYY` naming a
/// valid date as that date, month first (`civil_days` counts its days).
#[verifier::external_body]
fn parse_naive_date(input: &str, pattern: &str) -> (r: Option<i32>)
    ensures
        r is Some <==> chrono_date_parses(input@, pattern@),
        r matches Some(d) ==> d as int == chrono_date_days(input@, pattern@) && MIN_TIMESTAMP
            <= midnight_secs(d as int) <= MAX_TIMESTAMP,
        forall|c: char| #[trigger] needs_char(pattern@, c) && !has_char(input@, c) ==> r is None,
        us_date_read(pattern@, input@) matches Some(n) ==> r == Some(n as i32),
{
    chrono::NaiveDate::parse_from_str(input, pattern).ok().map(|date| date.num_days_from_ce())
}

/// `NaiveDate::and_hms_opt(0, 0, 0)` on the date `days` from the Common Era,
/// given as seconds and nanoseconds. The contract claims what the source shows:
/// midnight of that day, `(days - 719163) * 86400` seconds and no nanoseconds
/// (`DateTime::from_timestamp` counts days from the same epoch day).
#[verifier::external_body]
fn at_midnight(days: i32) -> (r: (i64, u32))
    requires
        MIN_TIMESTAMP <= midnight_secs(days as int) <= MAX_TIMESTAMP,
    ensures
        r.0 == midnight_secs(days as int),
        r.1 == 0,
{
    let date = chrono::NaiveDate::from_num_days_from_ce_opt(days).unwrap();
    let midnight = date.and_hms_opt(0, 0, 0).unwrap().and_utc();
    (midnight.timestamp(), midnight.timestamp_subsec_nanos())
}

/// `Local.from_local_datetime(&naive).earliest()` in UTC, as seconds and
/// nanoseconds, for the wall-clock date-time `secs`, `nanos` (as if UTC). Which
/// offset applies depends on the machine's time zone and is not stated; the
/// contract claims what the source shows of every outcome: the wall clock less
/// an offset of under a day, the nanoseconds kept, in the supported years.
#[verifier::external_body]
fn local_to_utc(secs: i64, nanos: u32) -> (r: Option<(i64, u32)>)
    requires
        valid_timestamp(secs as int, nanos as int),
    ensures
        r matches Some(p) ==> {
            &&& MIN_TIMESTAMP <= p.0 <= MAX_TIMESTAMP
            &&& secs - 86_400 < p.0 < secs + 86_400
            &&& p.1 == nanos
        },
{
    let naive = chrono::DateTime::from_timestamp(secs, nanos).unwrap().naive_utc();
    match chrono::Local.from_local_datetime(&naive).earliest() {
        Some(dt) => Some((dt.timestamp(), dt.timestamp_subsec_nanos())),
        None => None,
    }
}

/// Date-time patterns tried in order — the "Date & Time" tab.
pub open spec fn datetime_patterns() -> Seq<Seq<char>> {
    seq![
        "%Y-%m-%d %H:%M:%S"@,
        "%Y-%m-%dT%H:%M:%S"@,
        "%Y-%m-%d %H:%M"@,
        "%d.%m.%Y %H:%M:%S"@,
        "%d.%m.%Y %H:%M"@,
        "%m/%d/%Y %I:%M:%S %p"@,
        "%m/%d/%Y %H:%M:%S"@,
        "%m/%d/%Y %H:%M"@,
    ]
}

/// Date-only patterns tried after the date-time ones.
pub open spec fn date_patterns() -> Seq<Seq<char>> {
    seq!["%Y-%m-%d"@, "%d.%m.%Y"@, "%m/%d/%Y"@]
}

fn datetime_pattern_list() -> (v: Vec<&'static str>)
    ensures
        v@.len() == datetime_patterns().len(),
        forall|i: int| 0 <= i < v@.len() ==> #[trigger] v@[i]@ == datetime_patterns()[i],
{
    let mut v: Vec<&'static str> = Vec::new();
    v.push("%Y-%m-%d %H:%M:%S");
    v.push("%Y-%m-%dT%H:%M:%S");
    v.push("%Y-%m-%d %H:%M");
    v.push("%d.%m.%Y %H:%M:%S");
    v.push("%d.%m.%Y %H:%M");
    v.push("%m/%d/%Y %I:%M:%S %p");
    v.push("%m/%d/%Y %H:%M:%S");
    v.push("%m/%d/%Y %H:%M");
    v
}

fn date_pattern_list() -> (v: Vec<&'static str>)
    ensures
        v@.len() == date_patterns().len(),
        forall|i: int| 0 <= i < v@.len() ==> #[trigger] v@[i]@ == date_patterns()[i],
{
    let mut v: Vec<&'static str> = Vec::new();
    v.push("%Y-%m-%d");
    v.push("%d.%m.%Y");
    v.push("%m/%d/%Y");
    v
}

/// Whether some date-time or date pattern reads `s`.
pub open spec fn reads_as_date(s: Seq<char>) -> bool {
    ||| exists|i: int| 0 <= i < datetime_patterns().len() && #[trigger] chrono_datetime_parses(
        s,
        datetime_patterns()[i],
    )
    ||| exists|i: int| 0 <= i < date_patterns().len() && #[trigger] chrono_date_parses(
        s,
        date_patterns()[i],
    )
}

/// ASCII letters lowered, everything else kept.
pub open spec fn ascii_lower(c: char) -> char {
    if 'A' <= c && c <= 'Z' {
        ((c as int) + 32) as char
    } else {
        c
    }
}

/// Equality up to ASCII case, as `eq_ignore_ascii_case` tests it.
pub open spec fn eq_ignore_case(a: Seq<char>, b: Seq<char>) -> bool {
    a.len() == b.len() && forall|i: int| 0 <= i < a.len() ==> ascii_lower(a[i]) == ascii_lower(
        b[i],
    )
}

fn lower_char(c: char) -> (r: char)
    ensures
        r == ascii_lower(c),
{
    if 'A' <= c && c <= 'Z' {
        ((c as u8) + 32) as char
    } else {
        c
    }
}

fn eq_ignore_ascii_case(a: &str, b: &str) -> (r: bool)
    ensures
        r == eq_ignore_case(a@, b@),
{
    let n = a.unicode_len();
    if n != b.unicode_len() {
        return false;
    }
    let mut i: usize = 0;
    while i < n
        invariant
            n == a@.len(),
            n == b@.len(),
            i <= n,
            forall|k: int| 0 <= k < i ==> ascii_lower(a@[k]) == ascii_lower(b@[k]),
        decreases n - i,
    {
        if lower_char(a.get_char(i)) != lower_char(b.get_char(i)) {
            return false;
        }
        i = i + 1;
    }
    true
}

/// Seconds and nanoseconds of an epoch number, its unit told by its digit
/// count: up to 11 digits are seconds, 12 to 14 milliseconds, 15 and 16
/// microseconds, more nanoseconds.
pub open spec fn epoch_parts(n: int, digits: int) -> (int, int) {
    if digits <= 11 {
        (n, 0)
    } else if digits <= 14 {
        (n / 1000, (n % 1000) * 1_000_000)
    } else if digits <= 16 {
        (n / 1_000_000, (n % 1_000_000) * 1000)
    } else {
        (n / 1_000_000_000, n % 1_000_000_000)
    }
}

/// The instant an all-digit input names, `None` when it does not fit an `i64`.
pub open spec fn epoch_spec(digits: Seq<char>) -> Option<(int, int)> {
    if digits.len() == 0 || digits_value(digits) > i64::MAX {
        None
    } else {
        let p = epoch_parts(digits_value(digits), digits.len() as int);
        if valid_timestamp(p.0, p.1) {
            Some(p)
        } else {
            None
        }
    }
}

/// Digit-count heuristic: 1786098721 is seconds, 13 digits is
/// millis, 16 micros, anything longer nanos.
fn parse_epoch(digits: &str) -> (r: Option<UtcTime>)
    requires
        all_digits(digits@),
    ensures
        r is Some <==> epoch_spec(digits@) is Some,
        r matches Some(t) ==> epoch_spec(digits@) == Some(t@),
{
    let n = match digits_to_u64(digits, 9_223_372_036_854_775_807u64) {
        Some(v) => v as i64,
        None => return None,
    };
    proof {
        crate::text::lemma_digits_value_nonneg(digits@);
    }
    let len = digits.unicode_len();
    let (secs, nanos): (i64, u32) = if len <= 11 {
        (n, 0u32)
    } else if len <= 14 {
        (n / 1_000, (n % 1_000) as u32 * 1_000_000)
    } else if len <= 16 {
        (n / 1_000_000, (n % 1_000_000) as u32 * 1_000)
    } else {
        (n / 1_000_000_000, (n % 1_000_000_000) as u32)
    };
    UtcTime::from_timestamp(secs, nanos)
}

/// What `parse` settles without the clock or the time zone: `None` for blank
/// input, and for all-digit input the epoch instant.
pub open spec fn parse_settled(input: Seq<char>) -> Option<Option<(int, int)>> {
    let t = trim(input);
    if t.len() == 0 {
        Some(None)
    } else if eq_ignore_case(t, "now"@) {
        None
    } else if all_digits(t) {
        Some(epoch_spec(t))
    } else {
        None
    }
}

/// Inputs `parse` refuses whatever the clock and the time zone: blank input,
/// digits that name no instant, and text that is neither "now" nor read by any
/// date pattern.
pub open spec fn parse_refuses(input: Seq<char>) -> bool {
    let t = trim(input);
    ||| t.len() == 0
    ||| (!eq_ignore_case(t, "now"@) && all_digits(t) && epoch_spec(t) is None)
    ||| (!eq_ignore_case(t, "now"@) && !all_digits(t) && !reads_as_date(t))
}

/// The instant an epoch number `n` names, its unit told by its magnitude:
/// below 10^11 seconds, below 10^14 milliseconds, below 10^16 microseconds,
/// else nanoseconds.
pub open spec fn epoch_by_magnitude(n: int) -> (int, int) {
    if n < 100_000_000_000 {
        (n, 0)
    } else if n < 100_000_000_000_000 {
        (n / 1000, (n % 1000) * 1_000_000)
    } else if n < 10_000_000_000_000_000 {
        (n / 1_000_000, (n % 1_000_000) * 1000)
    } else {
        (n / 1_000_000_000, n % 1_000_000_000)
    }
}

/// The decimal text of any epoch number in `i64` parses to the instant its
/// magnitude names; in particular the seconds text of an instant after the
/// epoch and before the year 5138 parses back to that instant.
pub proof fn lemma_epoch_text_parses_by_magnitude(n: int)
    requires
        0 <= n <= i64::MAX,
    ensures
        parse_settled(int_text(n)) == Some(Some(epoch_by_magnitude(n))),
        n < 100_000_000_000 ==> parse_settled(int_text(n)) == Some(Some((n, 0int))),
{
    let t = nat_digits(n as nat);
    assert(int_text(n) == t);
    lemma_nat_digits_value(n as nat);
    lemma_trim_digits(t);
    reveal_with_fuel(pow10, 18);
    lemma_nat_digits_len(n as nat, 11);
    lemma_nat_digits_len(n as nat, 14);
    lemma_nat_digits_len(n as nat, 16);
    assert(!eq_ignore_case(t, "now"@)) by {
        reveal_strlit("now");
        if t.len() == 3 {
            assert(is_digit(t[0]));
            assert(ascii_lower(t[0]) == t[0]);
        }
    }
}

/// The index of the first date-time pattern from `i` on that reads `t`, or the
/// number of patterns.
pub open spec fn first_datetime_from(t: Seq<char>, i: int) -> int
    decreases datetime_patterns().len() - i,
{
    if i >= datetime_patterns().len() {
        datetime_patterns().len() as int
    } else if chrono_datetime_parses(t, datetime_patterns()[i]) {
        i
    } else {
        first_datetime_from(t, i + 1)
    }
}

/// The index of the first date pattern from `j` on that reads `t`, or the
/// number of patterns.
pub open spec fn first_date_from(t: Seq<char>, j: int) -> int
    decreases date_patterns().len() - j,
{
    if j >= date_patterns().len() {
        date_patterns().len() as int
    } else if chrono_date_parses(t, date_patterns()[j]) {
        j
    } else {
        first_date_from(t, j + 1)
    }
}

/// Whether the instant `u` is the wall-clock time `wall` seen from some offset
/// of under a day: seconds within a day of it, nanoseconds the same.
pub open spec fn near_wall(u: (int, int), wall: (int, int)) -> bool {
    wall.0 - 86_400 < u.0 < wall.0 + 86_400 && u.1 == wall.1
}

/// What a date string `t` reads as: the wall-clock time of the first date-time
/// pattern that reads it, else midnight of the date of the first date pattern
/// that reads it, taken in a time zone (so `None` or within a day of it); and
/// `None` when no pattern reads it.
pub open spec fn date_outcome(t: Seq<char>, r: Option<(int, int)>) -> bool {
    let i = first_datetime_from(t, 0);
    let j = first_date_from(t, 0);
    if i < datetime_patterns().len() {
        r matches Some(u) ==> near_wall(u, chrono_naive_datetime(t, datetime_patterns()[i]))
    } else if j < date_patterns().len() {
        r matches Some(u) ==> near_wall(
            u,
            (midnight_secs(chrono_date_days(t, date_patterns()[j])), 0),
        )
    } else {
        r is None
    }
}

/// The instants of an optional instant.
pub open spec fn view_opt(r: Option<UtcTime>) -> Option<(int, int)> {
    match r {
        Some(t) => Some(t@),
        None => None,
    }
}

/// What `parse` may give for `input`, as far as the clock and the time zone do
/// not decide it: the settled result for blank and all-digit input, some instant
/// for "now", and for a date string what `date_outcome` says.
pub open spec fn parse_allows(input: Seq<char>, r: Option<(int, int)>) -> bool {
    let t = trim(input);
    &&& parse_settled(input) matches Some(settled) ==> r == settled
    &&& (t.len() > 0 && eq_ignore_case(t, "now"@)) ==> r is Some
    &&& (t.len() > 0 && !eq_ignore_case(t, "now"@) && !all_digits(t)) ==> date_outcome(t, r)
    &&& (t.len() > 0 && !eq_ignore_case(t, "now"@) && !all_digits(t) && r is Some) ==> reads_as_date(t)
    &&& parse_refuses(input) ==> r is None
    &&& us_date_wall(t) matches Some(w) ==> (r matches Some(u) ==> near_wall(u, w))
}

/// Midnight of the date a text shaped `MM/DD/YYYY` names, month first, as a
/// wall-clock time; `None` for another shape or no valid date.
pub open spec fn us_date_wall(t: Seq<char>) -> Option<(int, int)> {
    match us_date_fields(t) {
        Some(f) => if valid_date(f.0, f.1, f.2) {
            Some((midnight_secs(civil_days(f.0, f.1, f.2)), 0))
        } else {
            None
        },
        None => None,
    }
}

/// The text `MM/DD/YYYY` of a date, zero-padded, month first.
pub open spec fn us_date_text(y: int, m: int, d: int) -> Seq<char> {
    seq![
        digit_char(m / 10),
        digit_char(m % 10),
        '/',
        digit_char(d / 10),
        digit_char(d % 10),
        '/',
        digit_char(y / 1000),
        digit_char((y / 100) % 10),
        digit_char((y / 10) % 10),
        digit_char(y % 10),
    ]
}

/// A decimal digit's character reads back as that digit.
proof fn lemma_digit_char_value(k: int)
    requires
        0 <= k < 10,
    ensures
        is_digit(digit_char(k)),
        digit_value(digit_char(k)) == k,
{
}

/// The zero-padded text of a valid date is shaped `MM/DD/YYYY`, reads back as
/// that date, and has nothing to trim.
proof fn lemma_us_date_text_fields(y: int, m: int, d: int)
    requires
        valid_date(y, m, d),
    ensures
        us_date_fields(us_date_text(y, m, d)) == Some((y, m, d)),
        trim(us_date_text(y, m, d)) == us_date_text(y, m, d),
{
    let t = us_date_text(y, m, d);
    lemma_digit_char_value(m / 10);
    lemma_digit_char_value(m % 10);
    lemma_digit_char_value(d / 10);
    lemma_digit_char_value(d % 10);
    lemma_digit_char_value(y / 1000);
    lemma_digit_char_value((y / 100) % 10);
    lemma_digit_char_value((y / 10) % 10);
    lemma_digit_char_value(y % 10);
    assert(y == (y / 10) * 10 + y % 10);
    assert(y / 10 == (y / 100) * 10 + (y / 10) % 10);
    assert(y / 100 == (y / 1000) * 10 + (y / 100) % 10);
    assert(t[0] == digit_char(m / 10));
    assert(t[9] == digit_char(y % 10));
    crate::text::lemma_trim_of_trimmed(t);
}

/// A slash-separated date `MM/DD/YYYY` is read month first: whatever `parse`
/// gives for the zero-padded text of a valid date lies within a day of
/// midnight of that year, month and day (the offset the time zone applies).
pub proof fn lemma_us_dates_read_month_first(y: int, m: int, d: int, r: Option<(int, int)>)
    requires
        valid_date(y, m, d),
        parse_allows(us_date_text(y, m, d), r),
    ensures
        r matches Some(u) ==> near_wall(u, (midnight_secs(civil_days(y, m, d)), 0)),
{
    lemma_us_date_text_fields(y, m, d);
    assert(us_date_wall(trim(us_date_text(y, m, d))) == Some(
        (midnight_secs(civil_days(y, m, d)), 0int),
    ));
}

/// Every date-time pattern needs a `:` after its hour.
proof fn lemma_datetime_patterns_need_colon()
    ensures
        forall|k: int|
            0 <= k < datetime_patterns().len() ==> #[trigger] needs_char(datetime_patterns()[k], ':'),
{
    reveal_strlit("%Y-%m-%d %H:%M:%S");
    reveal_strlit("%Y-%m-%dT%H:%M:%S");
    reveal_strlit("%Y-%m-%d %H:%M");
    reveal_strlit("%d.%m.%Y %H:%M:%S");
    reveal_strlit("%d.%m.%Y %H:%M");
    reveal_strlit("%m/%d/%Y %I:%M:%S %p");
    reveal_strlit("%m/%d/%Y %H:%M:%S");
    reveal_strlit("%m/%d/%Y %H:%M");
    assert forall|k: int| 0 <= k < datetime_patterns().len() implies #[trigger] needs_char(
        datetime_patterns()[k],
        ':',
    ) by {
        let p = datetime_patterns()[k];
        assert(p[9] == '%' && field_letter(p[10]) && p[11] == ':');
    }
}

/// The ISO date pattern needs a `-`, the European one a `.`, and the US one
/// reads month first.
proof fn lemma_date_patterns_shape()
    ensures
        needs_char(date_patterns()[0], '-'),
        needs_char(date_patterns()[1], '.'),
        date_patterns()[2] == "%m/%d/%Y"@,
{
    reveal_strlit("%Y-%m-%d");
    reveal_strlit("%d.%m.%Y");
    let p0 = date_patterns()[0];
    let p1 = date_patterns()[1];
    assert(p0[0] == '%' && field_letter(p0[1]) && p0[2] == '-');
    assert(p1[0] == '%' && field_letter(p1[1]) && p1[2] == '.');
}

/// A text shaped `MM/DD/YYYY` is not all digits and holds no `:`, `-` or `.`.
proof fn lemma_us_shape_chars(t: Seq<char>)
    requires
        us_date_fields(t) is Some,
    ensures
        !all_digits(t),
        !has_char(t, ':'),
        !has_char(t, '-'),
        !has_char(t, '.'),
{
    assert(!is_digit(t[2]));
    assert forall|i: int| 0 <= i < t.len() implies t[i] == '/' || is_digit(t[i]) by {
        if i != 2 && i != 5 {
            assert(i == 0 || i == 1 || i == 3 || i == 4 || i == 6 || i == 7 || i == 8 || i == 9);
        }
    }
}

/// The instant a wall-clock time reads as in the machine's time zone.
fn wall_to_instant(secs: i64, nanos: u32) -> (r: Option<UtcTime>)
    requires
        valid_timestamp(secs as int, nanos as int),
    ensures
        r matches Some(u) ==> near_wall(u@, (secs as int, nanos as int)),
{
    match local_to_utc(secs, nanos) {
        Some((s, n)) => UtcTime::from_timestamp(s, n),
        None => None,
    }
}

/// Parse user input into an instant. Accepts:
/// - epoch digits (unit auto-detected from magnitude: s/ms/µs/ns)
/// - date strings in ISO, European, or US shapes ("now" works too)
///
/// Date strings are read in the machine's time zone and "now" reads the
/// clock; of those the contract states that "now" always succeeds, and which
/// wall-clock time a date string is read as.
pub fn parse(input: &str) -> (r: Option<UtcTime>)
    ensures
        parse_allows(input@, view_opt(r)),
{
    let trimmed = trim_str(input);
    proof {
        if us_date_fields(trimmed@) is Some {
            lemma_us_shape_chars(trimmed@);
        }
        lemma_datetime_patterns_need_colon();
        lemma_date_patterns_shape();
    }
    if trimmed.unicode_len() == 0 {
        return None;
    }
    if eq_ignore_ascii_case(trimmed, "now") {
        proof {
            reveal_strlit("now");
        }
        return Some(UtcTime::now());
    }
    if str_all_digits(trimmed) {
        return parse_epoch(trimmed);
    }
    let patterns = datetime_pattern_list();
    let mut i: usize = 0;
    while i < patterns.len()
        invariant
            patterns@.len() == datetime_patterns().len(),
            forall|k: int| 0 <= k < patterns@.len() ==> #[trigger] patterns@[k]@ == datetime_patterns()[k],
            i <= patterns@.len(),
            trimmed@ == trim(input@),
            trimmed@.len() > 0,
            !eq_ignore_case(trimmed@, "now"@),
            !all_digits(trimmed@),
            first_datetime_from(trimmed@, 0) == first_datetime_from(trimmed@, i as int),
            forall|k: int|
                0 <= k < i ==> !chrono_datetime_parses(trimmed@, #[trigger] datetime_patterns()[k]),
            us_date_fields(trimmed@) is Some ==> !has_char(trimmed@, ':'),
            forall|k: int|
                0 <= k < datetime_patterns().len() ==> #[trigger] needs_char(
                    datetime_patterns()[k],
                    ':',
                ),
        decreases patterns@.len() - i,
    {
        assert(needs_char(patterns@[i as int]@, ':'));
        if let Some((secs, nanos)) = parse_naive_datetime(trimmed, patterns[i]) {
            assert(chrono_datetime_parses(trimmed@, datetime_patterns()[i as int]));
            assert(first_datetime_from(trimmed@, i as int) == i);
            return wall_to_instant(secs, nanos);
        }
        assert(!chrono_datetime_parses(trimmed@, datetime_patterns()[i as int]));
        i = i + 1;
    }
    let dates = date_pattern_list();
    let mut j: usize = 0;
    while j < dates.len()
        invariant
            dates@.len() == date_patterns().len(),
            forall|k: int| 0 <= k < dates@.len() ==> #[trigger] dates@[k]@ == date_patterns()[k],
            j <= dates@.len(),
            trimmed@ == trim(input@),
            trimmed@.len() > 0,
            !eq_ignore_case(trimmed@, "now"@),
            !all_digits(trimmed@),
            first_datetime_from(trimmed@, 0) == datetime_patterns().len(),
            first_date_from(trimmed@, 0) == first_date_from(trimmed@, j as int),
            forall|k: int|
                0 <= k < datetime_patterns().len() ==> !chrono_datetime_parses(
                    trimmed@,
                    #[trigger] datetime_patterns()[k],
                ),
            us_date_fields(trimmed@) is Some ==> !has_char(trimmed@, '-') && !has_char(
                trimmed@,
                '.',
            ),
            needs_char(date_patterns()[0], '-'),
            needs_char(date_patterns()[1], '.'),
            date_patterns()[2] == "%m/%d/%Y"@,
            (us_date_fields(trimmed@) matches Some(f) && valid_date(f.0, f.1, f.2)) ==> j <= 2,
        decreases dates@.len() - j,
    {
        if j == 0 {
            assert(needs_char(dates@[j as int]@, '-'));
        } else if j == 1 {
            assert(needs_char(dates@[j as int]@, '.'));
        }
        if let Some(days) = parse_naive_date(trimmed, dates[j]) {
            assert(chrono_date_parses(trimmed@, date_patterns()[j as int]));
            assert(first_date_from(trimmed@, j as int) == j);
            let (secs, nanos) = at_midnight(days);
            return wall_to_instant(secs, nanos);
        }
        j = j + 1;
    }
    None
}

/// Seconds per offset unit: s, m, h, d, w.
pub open spec fn unit_seconds(c: char) -> Option<int> {
    if c == 's' {
        Some(1)
    } else if c == 'm' {
        Some(60)
    } else if c == 'h' {
        Some(3600)
    } else if c == 'd' {
        Some(86_400)
    } else if c == 'w' {
        Some(604_800)
    } else {
        None
    }
}

/// The seconds an offset body spells from position `i`, with the pending digits
/// `body[start..i]` and `total` seconds so far: each number must be followed by
/// a unit, a number must fit in an `i64`, and no digits may be left at the end.
pub open spec fn scan_total(body: Seq<char>, i: int, start: int, total: int) -> Option<int>
    decreases body.len() - i,
{
    if i >= body.len() {
        if start == i {
            Some(total)
        } else {
            None
        }
    } else if is_digit(body[i]) {
        scan_total(body, i + 1, start, total)
    } else {
        let digits = body.subrange(start, i);
        if digits.len() == 0 || digits_value(digits) > i64::MAX {
            None
        } else {
            match unit_seconds(body[i]) {
                None => None,
                Some(u) => scan_total(body, i + 1, i + 1, total + digits_value(digits) * u),
            }
        }
    }
}

/// Whether every running total of `scan_total` stays within `i64`.
pub open spec fn scan_fits(body: Seq<char>, i: int, start: int, total: int) -> bool
    decreases body.len() - i,
{
    if i >= body.len() {
        true
    } else if is_digit(body[i]) {
        scan_fits(body, i + 1, start, total)
    } else {
        let digits = body.subrange(start, i);
        if digits.len() == 0 || digits_value(digits) > i64::MAX {
            true
        } else {
            match unit_seconds(body[i]) {
                None => true,
                Some(u) => total + digits_value(digits) * u <= i64::MAX && scan_fits(
                    body,
                    i + 1,
                    i + 1,
                    total + digits_value(digits) * u,
                ),
            }
        }
    }
}

/// The sign of an offset and the body after it.
pub open spec fn offset_sign_body(t: Seq<char>) -> (int, Seq<char>) {
    if t[0] == '+' {
        (1, t.drop_first())
    } else if t[0] == '-' {
        (-1, t.drop_first())
    } else {
        (1, t)
    }
}

/// The signed number of seconds an offset such as `+2h30m` spells.
pub open spec fn offset_seconds(spec: Seq<char>) -> Option<int> {
    let t = trim(spec);
    if t.len() == 0 {
        None
    } else {
        let (sign, body) = offset_sign_body(t);
        match scan_total(body, 0, 0, 0) {
            Some(v) => Some(sign * v),
            None => None,
        }
    }
}

/// When applying an offset does not panic: the running total fits in an `i64`
/// and the final number of seconds fits in a `TimeDelta`.
pub open spec fn offset_ok(spec: Seq<char>) -> bool {
    let t = trim(spec);
    t.len() > 0 ==> {
        let body = offset_sign_body(t).1;
        &&& scan_fits(body, 0, 0, 0)
        &&& scan_total(body, 0, 0, 0) matches Some(v) ==> v <= MAX_DELTA_SECONDS
    }
}

/// A `-` offset spells the negation of the same `+` offset: both are refused
/// together, and both are admitted together.
pub proof fn lemma_offset_sign(body: Seq<char>)
    ensures
        offset_seconds(seq!['-'] + body) == (match offset_seconds(seq!['+'] + body) {
            Some(v) => Some(-v),
            None => None,
        }),
        offset_ok(seq!['-'] + body) == offset_ok(seq!['+'] + body),
{
    lemma_trim_after_lead('-', body);
    lemma_trim_after_lead('+', body);
    let minus = seq!['-'] + crate::text::trim_end(body);
    let plus = seq!['+'] + crate::text::trim_end(body);
    assert(minus.drop_first() =~= crate::text::trim_end(body));
    assert(plus.drop_first() =~= crate::text::trim_end(body));
    assert(minus[0] == '-');
    assert(plus[0] == '+');
    assert(offset_sign_body(minus) == (-1int, crate::text::trim_end(body)));
    assert(offset_sign_body(plus) == (1int, crate::text::trim_end(body)));
    match scan_total(crate::text::trim_end(body), 0, 0, 0) {
        Some(v) => {
            assert(offset_seconds(seq!['-'] + body) == Some(-1 * v));
            assert(offset_seconds(seq!['+'] + body) == Some(1 * v));
        },
        None => {},
    }
}

/// An offset that starts with a digit means the same with a `+` in front, and
/// moving an instant (not inside a leap second) by it and then by the same
/// offset with `-` in front gives the instant back.
pub proof fn lemma_offset_round_trip(base: (int, int), body: Seq<char>)
    requires
        MIN_TIMESTAMP <= base.0 <= MAX_TIMESTAMP,
        0 <= base.1 < 1_000_000_000,
        body.len() > 0,
        is_digit(body[0]),
    ensures
        offset_spec(base, body) == offset_spec(base, seq!['+'] + body),
        offset_spec(base, seq!['+'] + body) matches Some(moved) ==> offset_spec(
            moved,
            seq!['-'] + body,
        ) == Some(base),
{
    lemma_offset_sign(body);
    let rest = body.drop_first();
    assert(body =~= seq![body[0]] + rest);
    lemma_trim_after_lead(body[0], rest);
    assert(trim(body) == seq![body[0]] + crate::text::trim_end(rest));
    assert(trim(body)[0] == body[0]);
    assert(offset_sign_body(trim(body)) == (1int, trim(body)));
    assert(trim_start(body) == body);
    assert(trim(body) == crate::text::trim_end(body));
    lemma_trim_after_lead('+', body);
    let plus = seq!['+'] + crate::text::trim_end(body);
    assert(plus.drop_first() =~= crate::text::trim_end(body));
    assert(offset_sign_body(plus) == (1int, crate::text::trim_end(body)));
    assert(offset_seconds(body) == offset_seconds(seq!['+'] + body));
}

fn scan_offset(body: &str) -> (r: Option<i64>)
    requires
        scan_fits(body@, 0, 0, 0),
    ensures
        r is Some <==> scan_total(body@, 0, 0, 0) is Some,
        r matches Some(v) ==> scan_total(body@, 0, 0, 0) == Some(v as int) && v >= 0,
{
    let n = body.unicode_len();
    let mut total: i64 = 0;
    let mut start: usize = 0;
    let mut i: usize = 0;
    while i < n
        invariant
            n == body@.len(),
            start <= i <= n,
            0 <= total,
            all_digits(body@.subrange(start as int, i as int)),
            scan_total(body@, 0, 0, 0) == scan_total(body@, i as int, start as int, total as int),
            scan_fits(body@, i as int, start as int, total as int),
        decreases n - i,
    {
        let c = body.get_char(i);
        if char_is_digit(c) {
            assert(body@.subrange(start as int, i + 1) =~= body@.subrange(start as int, i as int).push(c));
            i = i + 1;
            continue;
        }
        let digits = body.substring_char(start, i);
        let amount = match digits_to_u64(digits, 9_223_372_036_854_775_807u64) {
            Some(v) => v as i64,
            None => return None,
        };
        let unit: i64 = if c == 's' {
            1
        } else if c == 'm' {
            60
        } else if c == 'h' {
            3_600
        } else if c == 'd' {
            86_400
        } else if c == 'w' {
            604_800
        } else {
            return None;
        };
        proof {
            crate::text::lemma_digits_value_nonneg(digits@);
            assert(0 <= amount * unit) by (nonlinear_arith)
                requires
                    0 <= amount,
                    0 < unit,
            ;
        }
        total = total + amount * unit;
        i = i + 1;
        start = i;
        assert(body@.subrange(start as int, i as int) =~= Seq::<char>::empty());
    }
    if start != i {
        return None;
    }
    Some(total)
}

/// The instant an offset moves `base` to: `None` for a malformed offset or a
/// result outside the supported years.
pub open spec fn offset_spec(base: (int, int), spec: Seq<char>) -> Option<(int, int)> {
    match offset_seconds(spec) {
        Some(d) => add_seconds_spec(base, d),
        None => None,
    }
}

/// Apply an offset like "+2h30m", "-45m", "+1d" to an instant.
pub fn offset(base: &UtcTime, spec: &str) -> (r: Option<UtcTime>)
    requires
        offset_ok(spec@),
    ensures
        r is Some <==> offset_spec(base@, spec@) is Some,
        r matches Some(t) ==> offset_spec(base@, spec@) == Some(t@),
{
    let trimmed = trim_str(spec);
    let n = trimmed.unicode_len();
    if n == 0 {
        return None;
    }
    let first = trimmed.get_char(0);
    let (sign, body): (i64, &str) = if first == '+' {
        (1, trimmed.substring_char(1, n))
    } else if first == '-' {
        (-1, trimmed.substring_char(1, n))
    } else {
        (1, trimmed)
    };
    assert(body@ == offset_sign_body(trimmed@).1) by {
        if first == '+' || first == '-' {
            assert(body@ =~= trimmed@.drop_first());
        }
    }
    assert(scan_fits(body@, 0, 0, 0));
    let total = match scan_offset(body) {
        Some(v) => v,
        None => return None,
    };
    assert(0 <= total <= MAX_DELTA_SECONDS) by {
        assert(scan_total(offset_sign_body(trimmed@).1, 0, 0, 0) == Some(total as int));
    }
    base.checked_add_seconds(sign * total)
}

/// Why an offset could not be applied without panicking.
#[derive(Clone, Copy, Debug, PartialEq, Eq, Structural)]
pub enum OffsetError {
    /// The seconds overflow an `i64` or a `TimeDelta`.
    TooLarge,
}

/// Applies an offset where that cannot panic, and reports the panicking
/// inputs instead.
pub fn offset_checked(base: &UtcTime, spec: &str) -> (r: Result<Option<UtcTime>, OffsetError>)
    ensures
        r is Ok <==> offset_ok(spec@),
        r matches Ok(o) ==> (o is Some <==> offset_spec(base@, spec@) is Some),
        r matches Ok(Some(t)) ==> offset_spec(base@, spec@) == Some(t@),
{
    if !offset_fits(spec) {
        return Err(OffsetError::TooLarge);
    }
    Ok(offset(base, spec))
}

pub(crate) fn offset_fits(spec: &str) -> (r: bool)
    ensures
        r == offset_ok(spec@),
{
    let trimmed = trim_str(spec);
    let n = trimmed.unicode_len();
    if n == 0 {
        return true;
    }
    let first = trimmed.get_char(0);
    let body = if first == '+' || first == '-' {
        trimmed.substring_char(1, n)
    } else {
        trimmed
    };
    assert(body@ == offset_sign_body(trimmed@).1) by {
        if first == '+' || first == '-' {
            assert(body@ =~= trimmed@.drop_first());
        }
    }
    fits_scan(body)
}

fn fits_scan(body: &str) -> (r: bool)
    ensures
        r == (scan_fits(body@, 0, 0, 0) && (scan_total(body@, 0, 0, 0) matches Some(v) ==> v
            <= MAX_DELTA_SECONDS)),
{
    let n = body.unicode_len();
    let mut total: i128 = 0;
    let mut start: usize = 0;
    let mut i: usize = 0;
    while i < n
        invariant
            n == body@.len(),
            start <= i <= n,
            0 <= total <= i64::MAX,
            all_digits(body@.subrange(start as int, i as int)),
            scan_total(body@, 0, 0, 0) == scan_total(body@, i as int, start as int, total as int),
            scan_fits(body@, 0, 0, 0) == scan_fits(body@, i as int, start as int, total as int),
        decreases n - i,
    {
        let c = body.get_char(i);
        if char_is_digit(c) {
            assert(body@.subrange(start as int, i + 1) =~= body@.subrange(start as int, i as int).push(c));
            i = i + 1;
            continue;
        }
        let digits = body.substring_char(start, i);
        let amount = match digits_to_u64(digits, 9_223_372_036_854_775_807u64) {
            Some(v) => v as i128,
            None => return true,
        };
        let unit: i128 = if c == 's' {
            1
        } else if c == 'm' {
            60
        } else if c == 'h' {
            3_600
        } else if c == 'd' {
            86_400
        } else if c == 'w' {
            604_800
        } else {
            return true;
        };
        proof {
            crate::text::lemma_digits_value_nonneg(digits@);
            assert(0 <= amount * unit <= 604_800 * 9_223_372_036_854_775_807) by (nonlinear_arith)
                requires
                    0 <= amount <= 9_223_372_036_854_775_807,
                    0 < unit <= 604_800,
            ;
        }
        let next = total + amount * unit;
        if next > i64::MAX as i128 {
            return false;
        }
        total = next;
        i = i + 1;
        start = i;
        assert(body@.subrange(start as int, i as int) =~= Seq::<char>::empty());
    }
    if start != i {
        return true;
    }
    total <= MAX_DELTA_SECONDS as i128
}

} // verus!
