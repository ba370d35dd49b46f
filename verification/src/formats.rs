//! The selectable output formats, how each renders an instant, and the
//! Pango tooltip that lists them all.

use crate::config::Custom;
use crate::instant::{
    chrono_local_text, chrono_pattern_ok, chrono_rfc2822, chrono_utc_text, format_local,
    format_utc, micros_of, millis_of, nanos_of, rfc2822_local, simple_pattern,
    strftime_pattern_ok, wall_seconds, LocalTime, UtcTime, YEAR_0_START, YEAR_10000_START,
};
use crate::text::{
    contains_text, has_prefix, i64_text, int_text, lemma_contains_extend, lemma_contains_middle,
    push_spaces, spaces,
    starts_with, str_eq,
};
use vstd::prelude::*;

verus! {

/// Section a format belongs to, mirroring the UnixTime panel.
#[derive(Clone, Copy, Debug, PartialEq, Eq, Structural)]
pub enum Group {
    Timestamp,
    Date,
}

/// One selectable output format.
#[derive(Clone, Copy, Debug)]
pub struct Spec {
    pub key: &'static str,
    pub label: &'static str,
    pub group: Group,
    /// Badge chip text, like the UnixTime app (TS / ISO / EU / …).
    pub badge: &'static str,
    /// Badge chip color.
    pub color: &'static str,
}

impl View for Spec {
    type V = (Seq<char>, Seq<char>, Group, Seq<char>, Seq<char>);

    open spec fn view(&self) -> (Seq<char>, Seq<char>, Group, Seq<char>, Seq<char>) {
        (self.key@, self.label@, self.group, self.badge@, self.color@)
    }
}

pub const BADGE_TS: &'static str = "#3b82f6";
pub const BADGE_ISO: &'static str = "#c026d3";
pub const BADGE_EU: &'static str = "#8b5cf6";
pub const BADGE_US: &'static str = "#ef4444";
pub const BADGE_UK: &'static str = "#f97316";
pub const BADGE_JP: &'static str = "#14b8a6";
pub const BADGE_MISC: &'static str = "#64748b";
pub const BADGE_CUSTOM: &'static str = "#d946ef";

/// Number of built-in formats.
pub const SPEC_COUNT: usize = 15;

/// Every built-in format, in panel order: key, label, group, badge, badge color.
pub open spec fn format_table() -> Seq<(Seq<char>, Seq<char>, Group, Seq<char>, Seq<char>)> {
    seq![
        ("seconds"@, "Seconds"@, Group::Timestamp, "TS"@, BADGE_TS@),
        ("millis"@, "Milliseconds"@, Group::Timestamp, "TS"@, BADGE_TS@),
        ("micros"@, "Microseconds"@, Group::Timestamp, "TS"@, BADGE_TS@),
        ("nanos"@, "Nanoseconds"@, Group::Timestamp, "TS"@, BADGE_TS@),
        ("iso-utc"@, "ISO 8601 UTC"@, Group::Date, "ISO"@, BADGE_ISO@),
        ("iso-local"@, "ISO 8601 local"@, Group::Date, "ISO"@, BADGE_ISO@),
        ("iso-date"@, "ISO 8601 date"@, Group::Date, "ISO"@, BADGE_ISO@),
        ("european"@, "European"@, Group::Date, "EU"@, BADGE_EU@),
        ("european-short"@, "European (short)"@, Group::Date, "EU"@, BADGE_EU@),
        ("us"@, "US"@, Group::Date, "US"@, BADGE_US@),
        ("us-short"@, "US (short)"@, Group::Date, "US"@, BADGE_US@),
        ("british"@, "British"@, Group::Date, "UK"@, BADGE_UK@),
        ("japanese"@, "Japanese"@, Group::Date, "JP"@, BADGE_JP@),
        ("rfc2822"@, "RFC 2822"@, Group::Date, "RFC"@, BADGE_MISC@),
        ("unix-readable"@, "Unix readable"@, Group::Date, "UNIX"@, BADGE_MISC@),
    ]
}

/// Every built-in format, in panel order.
pub fn specs() -> (v: Vec<Spec>)
    ensures
        v@.len() == SPEC_COUNT,
        forall|i: int| 0 <= i < v@.len() ==> #[trigger] v@[i]@ == format_table()[i],
{
    let mut v: Vec<Spec> = Vec::new();
    v.push(Spec { key: "seconds", label: "Seconds", group: Group::Timestamp, badge: "TS", color: BADGE_TS });
    v.push(Spec { key: "millis", label: "Milliseconds", group: Group::Timestamp, badge: "TS", color: BADGE_TS });
    v.push(Spec { key: "micros", label: "Microseconds", group: Group::Timestamp, badge: "TS", color: BADGE_TS });
    v.push(Spec { key: "nanos", label: "Nanoseconds", group: Group::Timestamp, badge: "TS", color: BADGE_TS });
    v.push(Spec { key: "iso-utc", label: "ISO 8601 UTC", group: Group::Date, badge: "ISO", color: BADGE_ISO });
    v.push(Spec { key: "iso-local", label: "ISO 8601 local", group: Group::Date, badge: "ISO", color: BADGE_ISO });
    v.push(Spec { key: "iso-date", label: "ISO 8601 date", group: Group::Date, badge: "ISO", color: BADGE_ISO });
    v.push(Spec { key: "european", label: "European", group: Group::Date, badge: "EU", color: BADGE_EU });
    v.push(Spec { key: "european-short", label: "European (short)", group: Group::Date, badge: "EU", color: BADGE_EU });
    v.push(Spec { key: "us", label: "US", group: Group::Date, badge: "US", color: BADGE_US });
    v.push(Spec { key: "us-short", label: "US (short)", group: Group::Date, badge: "US", color: BADGE_US });
    v.push(Spec { key: "british", label: "British", group: Group::Date, badge: "UK", color: BADGE_UK });
    v.push(Spec { key: "japanese", label: "Japanese", group: Group::Date, badge: "JP", color: BADGE_JP });
    v.push(Spec { key: "rfc2822", label: "RFC 2822", group: Group::Date, badge: "RFC", color: BADGE_MISC });
    v.push(Spec { key: "unix-readable", label: "Unix readable", group: Group::Date, badge: "UNIX", color: BADGE_MISC });
    assert(v@.len() == 15);
    v
}

/// `s` centered in a field of four characters, as `{:^4}` lays it out: the left
/// side gets the smaller half of the padding.
pub open spec fn centered4(s: Seq<char>) -> Seq<char> {
    if s.len() >= 4 {
        s
    } else {
        let pad = (4 - s.len()) as nat;
        spaces(pad / 2) + s + spaces((pad - pad / 2) as nat)
    }
}

/// The Pango badge chip for `badge` on `color`.
pub open spec fn badge_markup_spec(badge: Seq<char>, color: Seq<char>) -> Seq<char> {
    "<span background=\""@ + color + "\" foreground=\"#ffffff\"><b> "@ + centered4(badge)
        + " </b></span>"@
}

/// A Pango badge chip: colored pill with white text, fixed width
/// so <tt> columns stay aligned.
pub fn badge_markup(badge: &str, color: &str) -> (r: String)
    ensures
        r@ == badge_markup_spec(badge@, color@),
{
    let mut out = String::from_str("<span background=\"");
    out.append(color);
    out.append("\" foreground=\"#ffffff\"><b> ");
    let n = badge.unicode_len();
    if n >= 4 {
        out.append(badge);
    } else {
        let pad = 4 - n;
        push_spaces(&mut out, pad / 2);
        out.append(badge);
        push_spaces(&mut out, pad - pad / 2);
    }
    out.append(" </b></span>");
    out
}

/// Every badge chip of the panel has the same width: a badge of up to four
/// characters is centered in exactly four, and every built-in badge and the
/// custom one fit.
pub proof fn lemma_badges_fixed_width(i: int)
    requires
        0 <= i < SPEC_COUNT,
    ensures
        centered4(format_table()[i].3).len() == 4,
        centered4("FMT"@).len() == 4,
{
    reveal_strlit("TS");
    reveal_strlit("ISO");
    reveal_strlit("EU");
    reveal_strlit("US");
    reveal_strlit("UK");
    reveal_strlit("JP");
    reveal_strlit("RFC");
    reveal_strlit("UNIX");
    reveal_strlit("FMT");
}

/// The prefix of custom strftime keys.
pub open spec fn custom_prefix() -> Seq<char> {
    "custom:"@
}

/// Whether `key` names a built-in format.
pub open spec fn is_builtin_key(key: Seq<char>) -> bool {
    exists|i: int| 0 <= i < SPEC_COUNT && #[trigger] format_table()[i].0 == key
}

/// Whether `key` is a format key: a built-in one, or `custom:` and a pattern.
pub open spec fn valid_key_spec(key: Seq<char>) -> bool {
    has_prefix(key, custom_prefix()) || is_builtin_key(key)
}

/// Whether `key` is a format key the bar can show.
pub fn is_valid_key(key: &str) -> (r: bool)
    ensures
        r == valid_key_spec(key@),
{
    if starts_with(key, "custom:") {
        return true;
    }
    let table = specs();
    let mut i: usize = 0;
    while i < table.len()
        invariant
            table@.len() == SPEC_COUNT,
            forall|j: int| 0 <= j < table@.len() ==> #[trigger] table@[j]@ == format_table()[j],
            i <= table@.len(),
            forall|j: int| 0 <= j < i ==> format_table()[j].0 != key@,
        decreases table@.len() - i,
    {
        assert(table@[i as int]@ == format_table()[i as int]);
        if str_eq(table[i].key, key) {
            assert(format_table()[i as int].0 == key@);
            return true;
        }
        i = i + 1;
    }
    false
}

/// A key renders to text exactly when it is a format key: one of the built-in
/// keys, or `custom:` followed by a pattern. Every instant agrees on which keys
/// those are.
pub proof fn lemma_render_defined_iff_valid(key: Seq<char>, utc: (int, int), local: (int, int, int))
    ensures
        render_spec(key, utc, local) is Some <==> valid_key_spec(key),
{
    let t = format_table();
    assert(t[0].0 == "seconds"@);
    assert(t[1].0 == "millis"@);
    assert(t[2].0 == "micros"@);
    assert(t[3].0 == "nanos"@);
    assert(t[4].0 == "iso-utc"@);
    assert(t[5].0 == "iso-local"@);
    assert(t[6].0 == "iso-date"@);
    assert(t[7].0 == "european"@);
    assert(t[8].0 == "european-short"@);
    assert(t[9].0 == "us"@);
    assert(t[10].0 == "us-short"@);
    assert(t[11].0 == "british"@);
    assert(t[12].0 == "japanese"@);
    assert(t[13].0 == "rfc2822"@);
    assert(t[14].0 == "unix-readable"@);
}

/// Every built-in format key is valid, and none of them starts with `custom:`.
pub proof fn lemma_builtin_keys_valid(i: int)
    requires
        0 <= i < SPEC_COUNT,
    ensures
        valid_key_spec(format_table()[i].0),
        !has_prefix(format_table()[i].0, custom_prefix()),
{
    lemma_table_keys_not_custom();
}

/// The patterns of the built-in date formats.
pub open spec fn iso_utc_pattern() -> Seq<char> { "%Y-%m-%dT%H:%M:%SZ"@ }
pub open spec fn iso_local_pattern() -> Seq<char> { "%Y-%m-%d %H:%M:%S"@ }
pub open spec fn iso_date_pattern() -> Seq<char> { "%Y-%m-%d"@ }
pub open spec fn european_pattern() -> Seq<char> { "%d.%m.%Y %H:%M:%S"@ }
pub open spec fn european_short_pattern() -> Seq<char> { "%d.%m.%Y"@ }
pub open spec fn us_pattern() -> Seq<char> { "%m/%d/%Y %I:%M:%S %p"@ }
pub open spec fn us_short_pattern() -> Seq<char> { "%-m/%-d/%Y"@ }
pub open spec fn british_pattern() -> Seq<char> { "%d/%m/%Y %H:%M:%S"@ }
pub open spec fn japanese_pattern() -> Seq<char> { "%Y年%m月%d日 %H時%M分%S秒"@ }
pub open spec fn unix_readable_pattern() -> Seq<char> { "%a %b %e %H:%M:%S %Z %Y"@ }

/// The built-in date patterns use only the simple specifiers.
proof fn lemma_builtin_patterns_simple()
    ensures
        simple_pattern(iso_utc_pattern()),
        simple_pattern(iso_local_pattern()),
        simple_pattern(iso_date_pattern()),
        simple_pattern(european_pattern()),
        simple_pattern(european_short_pattern()),
        simple_pattern(us_pattern()),
        simple_pattern(us_short_pattern()),
        simple_pattern(british_pattern()),
        simple_pattern(japanese_pattern()),
        simple_pattern(unix_readable_pattern()),
{
    reveal_strlit("%Y-%m-%dT%H:%M:%SZ");
    reveal_strlit("%Y-%m-%d %H:%M:%S");
    reveal_strlit("%Y-%m-%d");
    reveal_strlit("%d.%m.%Y %H:%M:%S");
    reveal_strlit("%d.%m.%Y");
    reveal_strlit("%m/%d/%Y %I:%M:%S %p");
    reveal_strlit("%-m/%-d/%Y");
    reveal_strlit("%d/%m/%Y %H:%M:%S");
    reveal_strlit("%Y年%m月%d日 %H時%M分%S秒");
    reveal_strlit("%a %b %e %H:%M:%S %Z %Y");
}

/// Whether the local wall clock of `local` lies in the years 0 to 9999, the
/// years RFC 2822 can write.
pub open spec fn rfc2822_year_ok(local: (int, int, int)) -> bool {
    YEAR_0_START <= wall_seconds(local) < YEAR_10000_START
}

/// The text of format `key` at an instant (`utc` and its local counterpart
/// `local`), or `None` for an unknown key.
pub open spec fn render_spec(key: Seq<char>, utc: (int, int), local: (int, int, int)) -> Option<
    Seq<char>,
> {
    if has_prefix(key, custom_prefix()) {
        Some(chrono_local_text(local, key.skip(custom_prefix().len() as int)))
    } else if key == "seconds"@ {
        Some(int_text(utc.0))
    } else if key == "millis"@ {
        Some(int_text(millis_of(utc)))
    } else if key == "micros"@ {
        Some(int_text(micros_of(utc)))
    } else if key == "nanos"@ {
        Some(
            match nanos_of(utc) {
                Some(n) => int_text(n),
                None => "out of range"@,
            },
        )
    } else if key == "iso-utc"@ {
        Some(chrono_utc_text(utc, iso_utc_pattern()))
    } else if key == "iso-local"@ {
        Some(chrono_local_text(local, iso_local_pattern()))
    } else if key == "iso-date"@ {
        Some(chrono_local_text(local, iso_date_pattern()))
    } else if key == "european"@ {
        Some(chrono_local_text(local, european_pattern()))
    } else if key == "european-short"@ {
        Some(chrono_local_text(local, european_short_pattern()))
    } else if key == "us"@ {
        Some(chrono_local_text(local, us_pattern()))
    } else if key == "us-short"@ {
        Some(chrono_local_text(local, us_short_pattern()))
    } else if key == "british"@ {
        Some(chrono_local_text(local, british_pattern()))
    } else if key == "japanese"@ {
        Some(chrono_local_text(local, japanese_pattern()))
    } else if key == "rfc2822"@ {
        Some(chrono_rfc2822(local))
    } else if key == "unix-readable"@ {
        Some(chrono_local_text(local, unix_readable_pattern()))
    } else {
        None
    }
}

/// The ISO 8601 UTC format shows the UTC instant with a `Z`, whatever the local
/// offset: two local views of one instant render it the same, as `chrono`'s
/// UTC text of the instant with pattern `%Y-%m-%dT%H:%M:%SZ`.
pub proof fn lemma_iso_utc_ignores_local_offset(
    utc: (int, int),
    local1: (int, int, int),
    local2: (int, int, int),
)
    ensures
        render_spec("iso-utc"@, utc, local1) == render_spec("iso-utc"@, utc, local2),
        render_spec("iso-utc"@, utc, local1) == Some(
            chrono_utc_text(utc, "%Y-%m-%dT%H:%M:%SZ"@),
        ),
{
    reveal_strlit("iso-utc");
    reveal_strlit("custom:");
    reveal_strlit("seconds");
    reveal_strlit("millis");
    reveal_strlit("micros");
    reveal_strlit("nanos");
    assert("iso-utc"@.subrange(0, 7)[0] == 'i');
    assert(!has_prefix("iso-utc"@, custom_prefix()));
}

/// When rendering `key` does not panic: a custom pattern must parse, and
/// RFC 2822 needs a four-digit year.
pub open spec fn render_ok(key: Seq<char>, local: (int, int, int)) -> bool {
    &&& has_prefix(key, custom_prefix()) ==> chrono_pattern_ok(
        key.skip(custom_prefix().len() as int),
    )
    &&& key == "rfc2822"@ ==> rfc2822_year_ok(local)
}

fn local_text(local: &LocalTime, pattern: &str) -> (r: String)
    requires
        chrono_pattern_ok(pattern@) || simple_pattern(pattern@),
    ensures
        r@ == chrono_local_text(local@, pattern@),
{
    match format_local(local, pattern) {
        Some(s) => s,
        None => String::new(),
    }
}

/// Render a format key (or `custom:<strftime>`) for the given instant.
pub fn render(key: &str, utc: &UtcTime, local: &LocalTime) -> (r: Option<String>)
    requires
        render_ok(key@, local@),
    ensures
        r is None <==> render_spec(key@, utc@, local@) is None,
        r matches Some(s) ==> render_spec(key@, utc@, local@) == Some(s@),
{
    proof {
        lemma_builtin_patterns_simple();
        reveal_strlit("custom:");
    }
    if starts_with(key, "custom:") {
        let pattern = key.substring_char(7, key.unicode_len());
        assert(pattern@ == key@.skip(7));
        return Some(local_text(local, pattern));
    }
    let value = if str_eq(key, "seconds") {
        i64_text(utc.timestamp())
    } else if str_eq(key, "millis") {
        i64_text(utc.timestamp_millis())
    } else if str_eq(key, "micros") {
        i64_text(utc.timestamp_micros())
    } else if str_eq(key, "nanos") {
        match utc.timestamp_nanos() {
            Some(n) => i64_text(n),
            None => String::from_str("out of range"),
        }
    } else if str_eq(key, "iso-utc") {
        match format_utc(utc, "%Y-%m-%dT%H:%M:%SZ") {
            Some(s) => s,
            None => String::new(),
        }
    } else if str_eq(key, "iso-local") {
        local_text(local, "%Y-%m-%d %H:%M:%S")
    } else if str_eq(key, "iso-date") {
        local_text(local, "%Y-%m-%d")
    } else if str_eq(key, "european") {
        local_text(local, "%d.%m.%Y %H:%M:%S")
    } else if str_eq(key, "european-short") {
        local_text(local, "%d.%m.%Y")
    } else if str_eq(key, "us") {
        local_text(local, "%m/%d/%Y %I:%M:%S %p")
    } else if str_eq(key, "us-short") {
        local_text(local, "%-m/%-d/%Y")
    } else if str_eq(key, "british") {
        local_text(local, "%d/%m/%Y %H:%M:%S")
    } else if str_eq(key, "japanese") {
        local_text(local, "%Y年%m月%d日 %H時%M分%S秒")
    } else if str_eq(key, "rfc2822") {
        rfc2822_local(local)
    } else if str_eq(key, "unix-readable") {
        local_text(local, "%a %b %e %H:%M:%S %Z %Y")
    } else {
        return None;
    };
    Some(value)
}

/// Why a format could not be rendered.
#[derive(Clone, Copy, Debug, PartialEq, Eq, Structural)]
pub enum RenderError {
    /// A custom strftime pattern that `chrono` cannot parse.
    BadPattern,
    /// RFC 2822 asked for a year outside 0..=9999.
    YearOutOfRange,
}

/// Renders `key` where that cannot panic; reports the panicking cases instead.
pub fn render_checked(key: &str, utc: &UtcTime, local: &LocalTime) -> (r: Result<
    Option<String>,
    RenderError,
>)
    ensures
        r is Ok <==> render_ok(key@, local@),
        r matches Ok(Some(s)) ==> render_spec(key@, utc@, local@) == Some(s@),
        r matches Ok(None) ==> render_spec(key@, utc@, local@) is None,
        r == Err::<Option<String>, RenderError>(RenderError::BadPattern) ==> has_prefix(
            key@,
            custom_prefix(),
        ),
        r == Err::<Option<String>, RenderError>(RenderError::YearOutOfRange) ==> key@
            == "rfc2822"@,
{
    proof {
        reveal_strlit("custom:");
        reveal_strlit("rfc2822");
    }
    if starts_with(key, "custom:") {
        assert(key@.subrange(0, 7)[0] == key@[0]);
        assert(key@[0] == 'c');
        let pattern = key.substring_char(7, key.unicode_len());
        assert(pattern@ == key@.skip(7));
        if !strftime_pattern_ok(pattern) {
            return Err(RenderError::BadPattern);
        }
    } else if str_eq(key, "rfc2822") {
        let wall = local.utc().timestamp() as i128 + local.offset_seconds() as i128;
        if !(YEAR_0_START as i128 <= wall && wall < YEAR_10000_START as i128) {
            return Err(RenderError::YearOutOfRange);
        }
    }
    Ok(render(key, utc, local))
}

/// The Pango section heading for `title`.
pub open spec fn section_header_spec(title: Seq<char>) -> Seq<char> {
    "<span foreground=\"#8a8f98\" size=\"small\">─────  <b>"@ + title + "</b>  ─────</span>\n"@
}

fn section_header(title: &str) -> (r: String)
    ensures
        r@ == section_header_spec(title@),
{
    let mut out = String::from_str("<span foreground=\"#8a8f98\" size=\"small\">─────  <b>");
    out.append(title);
    out.append("</b>  ─────</span>\n");
    out
}

/// One tooltip row: a check mark when active, the badge chip, the label padded
/// to `width` plus two spaces, and the value.
pub open spec fn panel_line_spec(
    active: bool,
    badge: Seq<char>,
    color: Seq<char>,
    label: Seq<char>,
    value: Seq<char>,
    width: int,
) -> Seq<char> {
    (if active {
        "✓"@
    } else {
        " "@
    }) + " "@ + badge_markup_spec(badge, color) + " "@ + label + spaces((width - label.len() + 2) as nat)
        + value + "\n"@
}

fn panel_line(active: bool, badge: &str, color: &str, label: &str, value: &str, width: usize) -> (r:
    String)
    requires
        label@.len() <= width,
        width + 2 <= usize::MAX,
    ensures
        r@ == panel_line_spec(active, badge@, color@, label@, value@, width as int),
{
    let mut out = if active {
        String::from_str("✓")
    } else {
        String::from_str(" ")
    };
    out.append(" ");
    let chip = badge_markup(badge, color);
    out.append(chip.as_str());
    out.append(" ");
    out.append(label);
    push_spaces(&mut out, width - label.unicode_len() + 2);
    out.append(value);
    out.append("\n");
    out
}

/// The longest length among `s` (0 when empty).
pub open spec fn max_len(s: Seq<Seq<char>>) -> nat
    decreases s.len(),
{
    if s.len() == 0 {
        0
    } else {
        let m = max_len(s.drop_last());
        if s.last().len() > m {
            s.last().len()
        } else {
            m
        }
    }
}

/// No element is longer than `max_len`.
pub proof fn lemma_max_len_bounds(s: Seq<Seq<char>>)
    ensures
        forall|i: int| 0 <= i < s.len() ==> #[trigger] s[i].len() <= max_len(s),
    decreases s.len(),
{
    if s.len() > 0 {
        lemma_max_len_bounds(s.drop_last());
        assert forall|i: int| 0 <= i < s.len() implies #[trigger] s[i].len() <= max_len(s) by {
            if i < s.len() - 1 {
                assert(s.drop_last()[i] == s[i]);
            }
        }
    }
}

/// The labels of the built-in formats followed by the names of the custom ones.
pub open spec fn all_labels(customs: Seq<Custom>) -> Seq<Seq<char>> {
    format_table().map_values(|e: (Seq<char>, Seq<char>, Group, Seq<char>, Seq<char>)| e.1)
        + customs.map_values(|c: Custom| c.name@)
}

/// Column width of the labels: the longest label or custom name.
pub open spec fn label_width(customs: Seq<Custom>) -> nat {
    max_len(all_labels(customs))
}

pub(crate) fn compute_label_width(table: &Vec<Spec>, customs: &Vec<Custom>) -> (w: usize)
    requires
        table@.len() == SPEC_COUNT,
        forall|j: int| 0 <= j < table@.len() ==> #[trigger] table@[j]@ == format_table()[j],
    ensures
        w == label_width(customs@),
{
    let ghost all = all_labels(customs@);
    assert(all.take(0) =~= Seq::<Seq<char>>::empty());
    let mut w: usize = 0;
    let mut k: usize = 0;
    while k < table.len()
        invariant
            table@.len() == SPEC_COUNT,
            forall|j: int| 0 <= j < table@.len() ==> #[trigger] table@[j]@ == format_table()[j],
            all == all_labels(customs@),
            k <= table@.len(),
            w == max_len(all.take(k as int)),
        decreases table@.len() - k,
    {
        assert(table@[k as int]@ == format_table()[k as int]);
        assert(all[k as int] == table@[k as int].label@);
        assert(all.take(k + 1).drop_last() =~= all.take(k as int));
        let n = table[k].label.unicode_len();
        if n > w {
            w = n;
        }
        k = k + 1;
    }
    let mut j: usize = 0;
    while j < customs.len()
        invariant
            all == all_labels(customs@),
            all.len() == SPEC_COUNT + customs@.len(),
            j <= customs@.len(),
            w == max_len(all.take(SPEC_COUNT + j)),
        decreases customs@.len() - j,
    {
        assert(all[SPEC_COUNT + j] == customs@[j as int].name@);
        assert(all.take(SPEC_COUNT + j + 1).drop_last() =~= all.take(SPEC_COUNT + j));
        let n = customs[j].name.unicode_len();
        if n > w {
            w = n;
        }
        j = j + 1;
    }
    assert(all.take(all.len() as int) =~= all);
    w
}

/// The section title of a group.
pub open spec fn group_title(g: Group) -> Seq<char> {
    match g {
        Group::Timestamp => "TIMESTAMP"@,
        Group::Date => "DATE FORMATS"@,
    }
}

fn group_title_str(g: Group) -> (r: &'static str)
    ensures
        r@ == group_title(g),
{
    match g {
        Group::Timestamp => "TIMESTAMP",
        Group::Date => "DATE FORMATS",
    }
}

/// What stands before built-in row `i`: the first section heading, or a blank
/// line and the next heading where the group changes.
pub open spec fn heading_before(i: int) -> Seq<char> {
    if i == 0 {
        section_header_spec(group_title(format_table()[0].2))
    } else if format_table()[i].2 != format_table()[i - 1].2 {
        "\n"@ + section_header_spec(group_title(format_table()[i].2))
    } else {
        Seq::empty()
    }
}

/// The rendered value of built-in format `i` (empty where it renders nothing).
pub open spec fn builtin_value(i: int, utc: (int, int), local: (int, int, int)) -> Seq<char> {
    match render_spec(format_table()[i].0, utc, local) {
        Some(v) => v,
        None => Seq::empty(),
    }
}

/// The tooltip rows of the first `n` built-in formats, with their headings.
pub open spec fn builtin_rows(
    n: int,
    utc: (int, int),
    local: (int, int, int),
    active: Seq<char>,
    width: int,
) -> Seq<char>
    decreases n,
{
    if n <= 0 {
        Seq::empty()
    } else {
        let e = format_table()[n - 1];
        builtin_rows(n - 1, utc, local, active, width) + heading_before(n - 1) + panel_line_spec(
            e.0 == active,
            e.3,
            e.4,
            e.1,
            builtin_value(n - 1, utc, local),
            width,
        )
    }
}

/// The tooltip rows of the first `n` custom formats.
pub open spec fn custom_rows(
    customs: Seq<Custom>,
    n: int,
    local: (int, int, int),
    active: Seq<char>,
    width: int,
) -> Seq<char>
    decreases n,
{
    if n <= 0 {
        Seq::empty()
    } else {
        let c = customs[n - 1];
        custom_rows(customs, n - 1, local, active, width) + panel_line_spec(
            custom_prefix() + c.format@ == active,
            "FMT"@,
            BADGE_CUSTOM@,
            c.name@,
            chrono_local_text(local, c.format@),
            width,
        )
    }
}

/// The whole tooltip: built-in formats by section, then the custom ones under
/// their own heading when there are any, inside `<tt>`.
pub open spec fn tooltip_spec(
    utc: (int, int),
    local: (int, int, int),
    customs: Seq<Custom>,
    active: Seq<char>,
) -> Seq<char> {
    let width = label_width(customs) as int;
    "<tt>"@ + builtin_rows(SPEC_COUNT as int, utc, local, active, width) + (if customs.len() == 0 {
        Seq::empty()
    } else {
        "\n"@ + section_header_spec("CUSTOM"@) + custom_rows(
            customs,
            customs.len() as int,
            local,
            active,
            width,
        )
    }) + "</tt>"@
}

/// The rows of the first `n` built-in formats begin the rows of the first `m`.
proof fn lemma_rows_prefix(
    n: int,
    m: int,
    utc: (int, int),
    local: (int, int, int),
    active: Seq<char>,
    width: int,
)
    requires
        0 <= n <= m,
    ensures
        builtin_rows(m, utc, local, active, width) == builtin_rows(n, utc, local, active, width)
            + builtin_rows(m, utc, local, active, width).skip(
            builtin_rows(n, utc, local, active, width).len() as int,
        ),
    decreases m - n,
{
    if n < m {
        lemma_rows_prefix(n, m - 1, utc, local, active, width);
    }
    assert(builtin_rows(m, utc, local, active, width) =~= builtin_rows(n, utc, local, active, width)
        + builtin_rows(m, utc, local, active, width).skip(
        builtin_rows(n, utc, local, active, width).len() as int,
    ));
}

/// The tooltip shows a row for every built-in format, with its badge, label and
/// current value, checked exactly when it is the active format.
pub proof fn lemma_tooltip_lists_every_format(
    utc: (int, int),
    local: (int, int, int),
    customs: Seq<Custom>,
    active: Seq<char>,
    i: int,
)
    requires
        0 <= i < SPEC_COUNT,
    ensures
        contains_text(
            tooltip_spec(utc, local, customs, active),
            panel_line_spec(
                format_table()[i].0 == active,
                format_table()[i].3,
                format_table()[i].4,
                format_table()[i].1,
                builtin_value(i, utc, local),
                label_width(customs) as int,
            ),
        ),
{
    let w = label_width(customs) as int;
    let e = format_table()[i];
    let row = panel_line_spec(e.0 == active, e.3, e.4, e.1, builtin_value(i, utc, local), w);
    lemma_rows_prefix(i + 1, SPEC_COUNT as int, utc, local, active, w);
    let all = builtin_rows(SPEC_COUNT as int, utc, local, active, w);
    let first = builtin_rows(i + 1, utc, local, active, w);
    let after = all.skip(first.len() as int);
    let before = builtin_rows(i, utc, local, active, w) + heading_before(i);
    assert(first == before + row);
    assert(all == before + row + after);
    lemma_contains_middle(before, row, after);
    let customs_part = if customs.len() == 0 {
        Seq::<char>::empty()
    } else {
        "\n"@ + section_header_spec("CUSTOM"@) + custom_rows(
            customs,
            customs.len() as int,
            local,
            active,
            w,
        )
    };
    assert(tooltip_spec(utc, local, customs, active) == "<tt>"@ + all + (customs_part + "</tt>"@));
    lemma_contains_extend("<tt>"@, all, customs_part + "</tt>"@, row);
}

/// The rows of the first `n` custom formats begin the rows of the first `m`.
proof fn lemma_custom_rows_prefix(
    customs: Seq<Custom>,
    n: int,
    m: int,
    local: (int, int, int),
    active: Seq<char>,
    width: int,
)
    requires
        0 <= n <= m,
    ensures
        custom_rows(customs, m, local, active, width) == custom_rows(customs, n, local, active, width)
            + custom_rows(customs, m, local, active, width).skip(
            custom_rows(customs, n, local, active, width).len() as int,
        ),
    decreases m - n,
{
    if n < m {
        lemma_custom_rows_prefix(customs, n, m - 1, local, active, width);
    }
    assert(custom_rows(customs, m, local, active, width) =~= custom_rows(
        customs,
        n,
        local,
        active,
        width,
    ) + custom_rows(customs, m, local, active, width).skip(
        custom_rows(customs, n, local, active, width).len() as int,
    ));
}

/// The tooltip shows a row for every custom format, with the custom badge, its
/// name and its pattern's value at the instant, checked exactly when the active
/// key is `custom:` followed by its pattern.
pub proof fn lemma_tooltip_lists_every_custom(
    utc: (int, int),
    local: (int, int, int),
    customs: Seq<Custom>,
    active: Seq<char>,
    j: int,
)
    requires
        0 <= j < customs.len(),
    ensures
        contains_text(
            tooltip_spec(utc, local, customs, active),
            panel_line_spec(
                "custom:"@ + customs[j].format@ == active,
                "FMT"@,
                BADGE_CUSTOM@,
                customs[j].name@,
                chrono_local_text(local, customs[j].format@),
                label_width(customs) as int,
            ),
        ),
{
    let w = label_width(customs) as int;
    let c = customs[j];
    let row = panel_line_spec(
        "custom:"@ + c.format@ == active,
        "FMT"@,
        BADGE_CUSTOM@,
        c.name@,
        chrono_local_text(local, c.format@),
        w,
    );
    lemma_custom_rows_prefix(customs, j + 1, customs.len() as int, local, active, w);
    let all = custom_rows(customs, customs.len() as int, local, active, w);
    let first = custom_rows(customs, j + 1, local, active, w);
    let after = all.skip(first.len() as int);
    let before = custom_rows(customs, j, local, active, w);
    assert(first == before + row);
    assert(all == before + row + after);
    lemma_contains_middle(before, row, after);
    let head = "<tt>"@ + builtin_rows(SPEC_COUNT as int, utc, local, active, w) + "\n"@
        + section_header_spec("CUSTOM"@);
    assert(tooltip_spec(utc, local, customs, active) =~= head + all + "</tt>"@);
    lemma_contains_extend(head, all, "</tt>"@, row);
}

/// When the tooltip can be built without panicking: every custom pattern
/// parses, RFC 2822 has a four-digit year, and the padding fits in a `usize`.
pub open spec fn tooltip_ok(local: (int, int, int), customs: Seq<Custom>) -> bool {
    &&& rfc2822_year_ok(local)
    &&& forall|j: int| 0 <= j < customs.len() ==> chrono_pattern_ok(#[trigger] customs[j].format@)
    &&& label_width(customs) + 2 <= usize::MAX
}

/// No built-in key starts with `custom:`.
pub(crate) proof fn lemma_table_keys_not_custom()
    ensures
        forall|i: int| 0 <= i < SPEC_COUNT ==> !has_prefix(#[trigger] format_table()[i].0, custom_prefix()),
{
    reveal_strlit("custom:");
    reveal_strlit("seconds");
    reveal_strlit("millis");
    reveal_strlit("micros");
    reveal_strlit("nanos");
    reveal_strlit("iso-utc");
    reveal_strlit("iso-local");
    reveal_strlit("iso-date");
    reveal_strlit("european");
    reveal_strlit("european-short");
    reveal_strlit("us");
    reveal_strlit("us-short");
    reveal_strlit("british");
    reveal_strlit("japanese");
    reveal_strlit("rfc2822");
    reveal_strlit("unix-readable");
    assert forall|i: int| 0 <= i < SPEC_COUNT implies !has_prefix(
        #[trigger] format_table()[i].0,
        custom_prefix(),
    ) by {
        let k = format_table()[i].0;
        if k.len() >= 7 {
            assert(k.subrange(0, 7)[0] == k[0]);
        }
    }
}

/// No built-in key is longer than fourteen characters.
pub(crate) proof fn lemma_table_keys_short()
    ensures
        forall|i: int| 0 <= i < SPEC_COUNT ==> #[trigger] format_table()[i].0.len() <= 14,
{
    reveal_strlit("seconds");
    reveal_strlit("millis");
    reveal_strlit("micros");
    reveal_strlit("nanos");
    reveal_strlit("iso-utc");
    reveal_strlit("iso-local");
    reveal_strlit("iso-date");
    reveal_strlit("european");
    reveal_strlit("european-short");
    reveal_strlit("us");
    reveal_strlit("us-short");
    reveal_strlit("british");
    reveal_strlit("japanese");
    reveal_strlit("rfc2822");
    reveal_strlit("unix-readable");
}

fn builtin_row(
    i: usize,
    spec: Spec,
    group: Option<Group>,
    utc: &UtcTime,
    local: &LocalTime,
    active: &str,
    width: usize,
) -> (r: String)
    requires
        i < SPEC_COUNT,
        spec@ == format_table()[i as int],
        group == (if i == 0 {
            None::<Group>
        } else {
            Some(format_table()[i - 1].2)
        }),
        !has_prefix(spec.key@, custom_prefix()),
        spec.key@ == "rfc2822"@ ==> rfc2822_year_ok(local@),
        spec.label@.len() <= width,
        width + 2 <= usize::MAX,
    ensures
        r@ == heading_before(i as int) + panel_line_spec(
            spec.key@ == active@,
            spec.badge@,
            spec.color@,
            spec.label@,
            builtin_value(i as int, utc@, local@),
            width as int,
        ),
{
    let mut out = String::new();
    let new_section = match group {
        None => true,
        Some(g) => g != spec.group,
    };
    if new_section {
        if group.is_some() {
            out.append("\n");
        }
        let header = section_header(group_title_str(spec.group));
        out.append(header.as_str());
    }
    assert(out@ =~= heading_before(i as int));
    let value = match render(spec.key, utc, local) {
        Some(v) => v,
        None => String::new(),
    };
    let line = panel_line(
        str_eq(spec.key, active),
        spec.badge,
        spec.color,
        spec.label,
        value.as_str(),
        width,
    );
    out.append(line.as_str());
    out
}

/// Pango tooltip mirroring the UnixTime dropdown: badge chips,
/// a ✓ on the active format, live values, and custom formats.
pub fn tooltip(utc: &UtcTime, local: &LocalTime, customs: &Vec<Custom>, active: &str) -> (r: String)
    requires
        tooltip_ok(local@, customs@),
    ensures
        r@ == tooltip_spec(utc@, local@, customs@, active@),
{
    proof {
        lemma_table_keys_not_custom();
        lemma_max_len_bounds(all_labels(customs@));
        reveal_strlit("custom:");
        reveal_strlit("rfc2822");
    }
    let table = specs();
    let width = compute_label_width(&table, customs);
    let ghost all = all_labels(customs@);
    let mut out = String::from_str("<tt>");
    let mut group: Option<Group> = None;
    let mut i: usize = 0;
    while i < table.len()
        invariant
            table@.len() == SPEC_COUNT,
            forall|j: int| 0 <= j < table@.len() ==> #[trigger] table@[j]@ == format_table()[j],
            forall|j: int| 0 <= j < SPEC_COUNT ==> !has_prefix(#[trigger] format_table()[j].0, custom_prefix()),
            all == all_labels(customs@),
            forall|j: int| 0 <= j < all.len() ==> #[trigger] all[j].len() <= width,
            width == label_width(customs@),
            tooltip_ok(local@, customs@),
            i <= table@.len(),
            group == (if i == 0 {
                None::<Group>
            } else {
                Some(format_table()[i - 1].2)
            }),
            out@ == "<tt>"@ + builtin_rows(i as int, utc@, local@, active@, width as int),
        decreases table@.len() - i,
    {
        let spec = table[i];
        assert(spec@ == format_table()[i as int]);
        assert(all[i as int] == spec.label@);
        assert(!has_prefix(format_table()[i as int].0, custom_prefix()));
        let row = builtin_row(i, spec, group, utc, local, active, width);
        out.append(row.as_str());
        group = Some(spec.group);
        i = i + 1;
    }
    if customs.len() > 0 {
        out.append("\n");
        let header = section_header("CUSTOM");
        out.append(header.as_str());
        let ghost start = out@;
        let mut j: usize = 0;
        while j < customs.len()
            invariant
                all == all_labels(customs@),
                forall|k: int| 0 <= k < all.len() ==> #[trigger] all[k].len() <= width,
                width == label_width(customs@),
                tooltip_ok(local@, customs@),
                j <= customs@.len(),
                out@ == start + custom_rows(customs@, j as int, local@, active@, width as int),
            decreases customs@.len() - j,
        {
            proof {
                reveal_strlit("custom:");
                reveal_strlit("rfc2822");
            }
            let custom = &customs[j];
            assert(all[SPEC_COUNT + j] == custom.name@);
            let mut key = String::from_str("custom:");
            key.append(custom.format.as_str());
            assert(key@.subrange(0, 7) =~= custom_prefix());
            assert(key@.skip(7) =~= custom.format@);
            assert(key@[0] == 'c');
            let value = match render(key.as_str(), utc, local) {
                Some(v) => v,
                None => String::new(),
            };
            let line = panel_line(
                str_eq(key.as_str(), active),
                "FMT",
                BADGE_CUSTOM,
                custom.name.as_str(),
                value.as_str(),
                width,
            );
            out.append(line.as_str());
            j = j + 1;
        }
    }
    out.append("</tt>");
    out
}

/// Whether the panel can render every format of `customs` at `local`.
pub fn customs_renderable(local: &LocalTime, customs: &Vec<Custom>) -> (r: bool)
    ensures
        r == tooltip_ok(local@, customs@),
{
    let wall = local.utc().timestamp() as i128 + local.offset_seconds() as i128;
    if !(YEAR_0_START as i128 <= wall && wall < YEAR_10000_START as i128) {
        return false;
    }
    let table = specs();
    let width = compute_label_width(&table, customs);
    if width > usize::MAX - 2 {
        return false;
    }
    let mut j: usize = 0;
    while j < customs.len()
        invariant
            j <= customs@.len(),
            forall|k: int| 0 <= k < j ==> chrono_pattern_ok(#[trigger] customs@[k].format@),
        decreases customs@.len() - j,
    {
        if !strftime_pattern_ok(customs[j].format.as_str()) {
            return false;
        }
        j = j + 1;
    }
    true
}

/// Builds the tooltip where that cannot panic; `None` where a custom pattern does
/// not parse or RFC 2822 would need a year outside 0..=9999.
pub fn tooltip_checked(utc: &UtcTime, local: &LocalTime, customs: &Vec<Custom>, active: &str) -> (r:
    Option<String>)
    ensures
        r is Some <==> tooltip_ok(local@, customs@),
        r matches Some(s) ==> s@ == tooltip_spec(utc@, local@, customs@, active@),
{
    if !customs_renderable(local, customs) {
        return None;
    }
    Some(tooltip(utc, local, customs, active))
}

} // verus!
