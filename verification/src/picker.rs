//! The logic of the interactive panel: its lines, the value a chosen line
//! copies, the history lines, and reading "epoch or date" input with offsets.

use crate::config::Custom;
use crate::convert::{
    eq_ignore_case, offset, offset_ok, offset_seconds, offset_spec, parse, parse_allows, parse_refuses,
    view_opt,
    parse_settled,
};
use crate::formats::{
    all_labels, builtin_value, compute_label_width, custom_prefix, customs_renderable, format_table, label_width,
    lemma_max_len_bounds, lemma_table_keys_not_custom, render, specs, tooltip_ok, SPEC_COUNT,
};
use crate::history::Entry;
use crate::instant::{chrono_local_text, LocalTime, UtcTime};
use crate::text::{
    char_is_ws, has_prefix, int_text, is_ws, push_i64, push_spaces, spaces, str_eq, trim, trim_str,
};
use vstd::prelude::*;

verus! {

/// The panel entry that opens the converter.
pub const CONVERT_ENTRY: &'static str = "⇄  Convert / Date & Time…";

/// The panel entry that opens the history.
pub const HISTORY_ENTRY: &'static str = "⟲  History…";

/// `label`, padded to `width` plus two spaces, then `value`.
pub open spec fn aligned_spec(label: Seq<char>, value: Seq<char>, width: int) -> Seq<char> {
    label + spaces((width - label.len() + 2) as nat) + value
}

/// One aligned "Label  value" line.
pub fn aligned(label: &str, value: &str, width: usize) -> (r: String)
    requires
        label@.len() <= width,
        width + 2 <= usize::MAX,
    ensures
        r@ == aligned_spec(label@, value@, width as int),
{
    let mut out = String::from_str(label);
    push_spaces(&mut out, width - label.unicode_len() + 2);
    out.append(value);
    out
}

/// With labels no longer than the width, every aligned line puts its value
/// in the same column: right after `width` plus two characters.
pub proof fn lemma_aligned_column(label: Seq<char>, value: Seq<char>, width: int)
    requires
        label.len() <= width,
    ensures
        aligned_spec(label, value, width).len() == width + 2 + value.len(),
        aligned_spec(label, value, width).skip(width + 2) == value,
{
    assert(aligned_spec(label, value, width).skip(width + 2) =~= value);
}

/// The panel lines: one per built-in format, then one per custom format,
/// labels aligned to the longest.
pub open spec fn format_lines_spec(
    utc: (int, int),
    local: (int, int, int),
    customs: Seq<Custom>,
) -> Seq<Seq<char>> {
    let w = label_width(customs) as int;
    Seq::new(
        SPEC_COUNT as nat,
        |i: int| aligned_spec(format_table()[i].1, builtin_value(i, utc, local), w),
    ) + Seq::new(
        customs.len(),
        |j: int| aligned_spec(customs[j].name@, chrono_local_text(local, customs[j].format@), w),
    )
}

/// One aligned "Label  value" line per format, customs included.
pub fn format_lines(utc: &UtcTime, local: &LocalTime, customs: &Vec<Custom>) -> (r: Vec<String>)
    requires
        tooltip_ok(local@, customs@),
    ensures
        r@.map_values(|s: String| s@) == format_lines_spec(utc@, local@, customs@),
{
    proof {
        lemma_table_keys_not_custom();
        lemma_max_len_bounds(all_labels(customs@));
    }
    let table = specs();
    let width = compute_label_width(&table, customs);
    let ghost all = all_labels(customs@);
    let ghost target = format_lines_spec(utc@, local@, customs@);
    let mut lines: Vec<String> = Vec::new();
    let mut i: usize = 0;
    while i < table.len()
        invariant
            table@.len() == SPEC_COUNT,
            forall|j: int| 0 <= j < table@.len() ==> #[trigger] table@[j]@ == format_table()[j],
            forall|j: int|
                0 <= j < SPEC_COUNT ==> !has_prefix(#[trigger] format_table()[j].0, custom_prefix()),
            all == all_labels(customs@),
            forall|j: int| 0 <= j < all.len() ==> #[trigger] all[j].len() <= width,
            width == label_width(customs@),
            tooltip_ok(local@, customs@),
            target == format_lines_spec(utc@, local@, customs@),
            i <= table@.len(),
            lines@.len() == i,
            forall|j: int| 0 <= j < i ==> #[trigger] lines@[j]@ == target[j],
        decreases table@.len() - i,
    {
        let spec = table[i];
        assert(spec@ == format_table()[i as int]);
        assert(all[i as int] == spec.label@);
        assert(!has_prefix(format_table()[i as int].0, custom_prefix()));
        let value = match render(spec.key, utc, local) {
            Some(v) => v,
            None => String::new(),
        };
        let line = aligned(spec.label, value.as_str(), width);
        lines.push(line);
        i = i + 1;
    }
    let mut j: usize = 0;
    while j < customs.len()
        invariant
            all == all_labels(customs@),
            forall|k: int| 0 <= k < all.len() ==> #[trigger] all[k].len() <= width,
            width == label_width(customs@),
            tooltip_ok(local@, customs@),
            target == format_lines_spec(utc@, local@, customs@),
            j <= customs@.len(),
            lines@.len() == SPEC_COUNT + j,
            forall|k: int| 0 <= k < SPEC_COUNT + j ==> #[trigger] lines@[k]@ == target[k],
        decreases customs@.len() - j,
    {
        proof {
            reveal_strlit("custom:");
            reveal_strlit("rfc2822");
        }
        let custom = &customs[j];
        assert(all[SPEC_COUNT + j] == custom.name@);
        let mut key = String::from_str("custom:");
        key.append(custom.format.as_str());
        assert(key@.subrange(0, 7) =~= custom_prefix());
        assert(key@.skip(7) =~= custom.format@);
        assert(key@[0] == 'c');
        let value = match render(key.as_str(), utc, local) {
            Some(v) => v,
            None => String::new(),
        };
        let line = aligned(custom.name.as_str(), value.as_str(), width);
        lines.push(line);
        j = j + 1;
    }
    assert(lines@.map_values(|s: String| s@) =~= target);
    lines
}

/// The panel lines where building them cannot panic; `None` where a custom
/// pattern does not parse or RFC 2822 would need a year outside 0..=9999.
pub fn format_lines_checked(utc: &UtcTime, local: &LocalTime, customs: &Vec<Custom>) -> (r: Option<
    Vec<String>,
>)
    ensures
        r is Some <==> tooltip_ok(local@, customs@),
        r matches Some(v) ==> v@.map_values(|s: String| s@) == format_lines_spec(
            utc@,
            local@,
            customs@,
        ),
{
    if !customs_renderable(local, customs) {
        return None;
    }
    Some(format_lines(utc, local, customs))
}

/// The index of the last two-space separator starting at or before `k`, or -1.
pub open spec fn last_double_space(s: Seq<char>, k: int) -> int
    decreases k + 1,
{
    if k < 0 {
        -1
    } else if k + 1 < s.len() && s[k] == ' ' && s[k + 1] == ' ' {
        k
    } else {
        last_double_space(s, k - 1)
    }
}

/// The value column of a panel line: the text after the last two spaces, trimmed.
pub open spec fn value_of_spec(line: Seq<char>) -> Seq<char> {
    let k = last_double_space(line, line.len() - 2);
    trim(
        if k >= 0 {
            line.skip(k + 2)
        } else {
            line
        },
    )
}

/// The value a chosen panel line copies.
pub fn value_of(line: &str) -> (r: String)
    ensures
        r@ == value_of_spec(line@),
{
    let n = line.unicode_len();
    let mut k: usize = if n >= 2 {
        n - 1
    } else {
        0
    };
    while k > 0 && !(line.get_char(k - 1) == ' ' && line.get_char(k) == ' ')
        invariant
            n == line@.len(),
            k <= n,
            n >= 2 ==> k <= n - 1,
            n < 2 ==> k == 0,
            last_double_space(line@, n - 2) == last_double_space(line@, k - 1),
        decreases k,
    {
        k = k - 1;
    }
    let found = k > 0;
    let piece = if found {
        line.substring_char(k + 1, n)
    } else {
        line
    };
    proof {
        if found {
            assert(last_double_space(line@, n - 2) == k - 1);
        } else {
            assert(last_double_space(line@, n - 2) == -1);
        }
    }
    String::from_str(trim_str(piece))
}

/// Whether `s` holds two spaces in a row.
pub open spec fn has_double_space(s: Seq<char>) -> bool {
    exists|i: int| 0 <= i && i + 1 < s.len() && #[trigger] s[i] == ' ' && s[i + 1] == ' '
}

/// The scan for two spaces stops at `m` when no pair starts after `m` up to `k`.
proof fn lemma_last_double_space_at(s: Seq<char>, k: int, m: int)
    requires
        0 <= m <= k,
        m + 1 < s.len(),
        s[m] == ' ' && s[m + 1] == ' ',
        forall|j: int| m < j <= k && j + 1 < s.len() ==> !(#[trigger] s[j] == ' ' && s[j + 1] == ' '),
    ensures
        last_double_space(s, k) == m,
    decreases k - m,
{
    if k > m {
        lemma_last_double_space_at(s, k - 1, m);
    }
}

/// The value a panel line copies is the value it shows, trimmed, whenever that
/// value holds no two spaces in a row and does not start with a space.
pub proof fn lemma_value_of_aligned(label: Seq<char>, value: Seq<char>, width: int)
    requires
        label.len() <= width,
        !has_double_space(value),
        value.len() == 0 || value[0] != ' ',
    ensures
        value_of_spec(aligned_spec(label, value, width)) == trim(value),
{
    let line = aligned_spec(label, value, width);
    let lead = label.len() + (width - label.len() + 2);
    assert(line.len() == lead + value.len());
    assert(line[lead - 2] == ' ');
    assert(line[lead - 1] == ' ');
    assert forall|j: int|
        lead - 2 < j <= line.len() - 2 && j + 1 < line.len() implies !(#[trigger] line[j] == ' '
        && line[j + 1] == ' ') by {
        if j >= lead {
            assert(line[j] == value[j - lead]);
            assert(line[j + 1] == value[j + 1 - lead]);
            if value[j - lead] == ' ' && value[j + 1 - lead] == ' ' {
                assert(has_double_space(value));
            }
        } else {
            assert(line[j + 1] == value[0]);
        }
    }
    lemma_last_double_space_at(line, line.len() - 2, lead - 2);
    assert(line.skip(lead) =~= value);
}

/// How long ago, in the coarsest fitting unit: seconds under 90, minutes under
/// 5400 seconds, hours under 129600, days otherwise.
pub open spec fn ago_spec(delta: int) -> Seq<char> {
    if delta < 90 {
        "("@ + int_text(delta) + "s ago)"@
    } else if delta < 5_400 {
        "("@ + int_text(delta / 60) + "m ago)"@
    } else if delta < 129_600 {
        "("@ + int_text(delta / 3_600) + "h ago)"@
    } else {
        "("@ + int_text(delta / 86_400) + "d ago)"@
    }
}

/// An age is shown in the coarsest unit whose count is at least one, and
/// moves on to the next unit only at one and a half of it: seconds below 90 s,
/// minutes below 90 min, hours below 36 h, days beyond; the count is the whole
/// number of units elapsed.
pub proof fn lemma_ago_units(delta: int)
    ensures
        delta < 90 ==> ago_spec(delta) == "("@ + int_text(delta) + "s ago)"@,
        90 <= delta < 5_400 ==> ago_spec(delta) == "("@ + int_text(delta / 60) + "m ago)"@ && 1
            <= delta / 60 < 90,
        5_400 <= delta < 129_600 ==> ago_spec(delta) == "("@ + int_text(delta / 3_600)
            + "h ago)"@ && 1 <= delta / 3_600 < 36,
        129_600 <= delta ==> ago_spec(delta) == "("@ + int_text(delta / 86_400) + "d ago)"@ && 1
            <= delta / 86_400,
{
}

/// How long before `now` (epoch seconds) an entry was copied.
pub fn ago(entry: &Entry, now: i64) -> (r: String)
    requires
        i64::MIN <= now - entry.at <= i64::MAX,
    ensures
        r@ == ago_spec(now - entry.at),
{
    let delta = now - entry.at;
    let mut out = String::from_str("(");
    if delta < 90 {
        push_i64(&mut out, delta);
        out.append("s ago)");
    } else if delta < 5_400 {
        push_i64(&mut out, delta / 60);
        out.append("m ago)");
    } else if delta < 129_600 {
        push_i64(&mut out, delta / 3_600);
        out.append("h ago)");
    } else {
        push_i64(&mut out, delta / 86_400);
        out.append("d ago)");
    }
    out
}

/// The separator between the value and the rest of a history line.
pub open spec fn history_separator() -> Seq<char> {
    "  ·  "@
}

/// A history line: value, separator, format key and age.
pub open spec fn history_line_spec(entry: (int, Seq<char>, Seq<char>), now: int) -> Seq<char> {
    entry.2 + history_separator() + entry.1 + " "@ + ago_spec(now - entry.0)
}

/// The history panel line of an entry.
pub fn history_line(entry: &Entry, now: i64) -> (r: String)
    requires
        i64::MIN <= now - entry.at <= i64::MAX,
    ensures
        r@ == history_line_spec(entry@, now as int),
{
    let mut out = String::from_str(entry.value.as_str());
    out.append("  ·  ");
    out.append(entry.format.as_str());
    out.append(" ");
    let age = ago(entry, now);
    out.append(age.as_str());
    out
}

/// The index of the first history separator at or after `k`, or the length.
pub open spec fn first_separator(s: Seq<char>, k: int) -> int
    decreases s.len() - k,
{
    if k + 5 > s.len() {
        s.len() as int
    } else if s.subrange(k, k + 5) == history_separator() {
        k
    } else {
        first_separator(s, k + 1)
    }
}

/// The value a chosen history line re-copies: the text before the first separator.
pub open spec fn history_value_spec(choice: Seq<char>) -> Seq<char> {
    choice.subrange(0, first_separator(choice, 0))
}

proof fn lemma_first_separator_bounds(s: Seq<char>, k: int)
    requires
        0 <= k,
    ensures
        k <= first_separator(s, k) <= s.len() || (k > s.len() && first_separator(s, k) == s.len()),
        first_separator(s, k) <= s.len(),
    decreases s.len() - k,
{
    if k + 5 <= s.len() && s.subrange(k, k + 5) != history_separator() {
        lemma_first_separator_bounds(s, k + 1);
    }
}

/// The value part of a chosen history line.
pub fn history_value(choice: &str) -> (r: String)
    ensures
        r@ == history_value_spec(choice@),
{
    proof {
        reveal_strlit("  ·  ");
        lemma_first_separator_bounds(choice@, 0);
    }
    let n = choice.unicode_len();
    let mut k: usize = 0;
    while n >= 5 && k <= n - 5
        invariant
            n == choice@.len(),
            first_separator(choice@, 0) == first_separator(choice@, k as int),
            history_separator() == "  ·  "@,
            "  ·  "@.len() == 5,
            forall|m: int| 0 <= m < 5 ==> "  ·  "@[m] == (if m == 2 { '·' } else { ' ' }),
        decreases n - k,
    {
        if choice.get_char(k) == ' ' && choice.get_char(k + 1) == ' ' && choice.get_char(k + 2)
            == '·' && choice.get_char(k + 3) == ' ' && choice.get_char(k + 4) == ' ' {
            assert(choice@.subrange(k as int, k + 5) =~= history_separator());
            return String::from_str(choice.substring_char(0, k));
        }
        assert(choice@.subrange(k as int, k + 5) != history_separator()) by {
            if choice@.subrange(k as int, k + 5) == history_separator() {
                assert(choice@.subrange(k as int, k + 5)[0] == choice@[k as int]);
                assert(choice@.subrange(k as int, k + 5)[1] == choice@[k + 1]);
                assert(choice@.subrange(k as int, k + 5)[2] == choice@[k + 2]);
                assert(choice@.subrange(k as int, k + 5)[3] == choice@[k + 3]);
                assert(choice@.subrange(k as int, k + 5)[4] == choice@[k + 4]);
            }
        }
        k = k + 1;
    }
    assert(choice@.subrange(0, n as int) =~= choice@);
    String::from_str(choice)
}

/// What the main panel does with a chosen line.
#[derive(Debug, Clone, PartialEq, Eq)]
pub enum PanelChoice {
    /// Open the converter.
    Convert,
    /// Open the history.
    History,
    /// Copy this value.
    Copy(String),
}

/// The action for a line chosen in the main panel.
pub fn panel_choice(choice: &str) -> (r: PanelChoice)
    ensures
        choice@ == CONVERT_ENTRY@ ==> r == PanelChoice::Convert,
        choice@ != CONVERT_ENTRY@ && choice@ == HISTORY_ENTRY@ ==> r == PanelChoice::History,
        choice@ != CONVERT_ENTRY@ && choice@ != HISTORY_ENTRY@ ==> (r matches PanelChoice::Copy(v)
            && v@ == value_of_spec(choice@)),
{
    if str_eq(choice, CONVERT_ENTRY) {
        PanelChoice::Convert
    } else if str_eq(choice, HISTORY_ENTRY) {
        PanelChoice::History
    } else {
        PanelChoice::Copy(value_of(choice))
    }
}

/// The index of the last whitespace character of `s` at or before `k`, or -1.
pub open spec fn last_ws(s: Seq<char>, k: int) -> int
    decreases k + 1,
{
    if k < 0 {
        -1
    } else if k < s.len() && is_ws(s[k]) {
        k
    } else {
        last_ws(s, k - 1)
    }
}

/// The text after the last whitespace of `raw`, which `parse_input` reads as
/// an offset.
pub open spec fn input_tail(raw: Seq<char>) -> Seq<char> {
    raw.skip(last_ws(raw, raw.len() - 1) + 1)
}

/// When reading input cannot panic: where it has a last token and the text
/// before it may read as an instant, that token is an offset whose seconds
/// fit.
pub open spec fn input_ok(raw: Seq<char>) -> bool {
    (last_ws(raw, raw.len() - 1) >= 0 && !parse_refuses(trim(input_head(raw)))) ==> offset_ok(
        trim(input_tail(raw)),
    )
}

/// The text before the last whitespace of `raw`, which `parse_input` reads as
/// the base instant.
pub open spec fn input_head(raw: Seq<char>) -> Seq<char> {
    raw.subrange(0, last_ws(raw, raw.len() - 1))
}

/// What reading `raw` falls back to when the whole input reads as nothing:
/// nothing without whitespace; else whatever `parse` may give for the head,
/// moved by the offset after the last whitespace.
pub open spec fn fallback_outcome(raw: Seq<char>, r: Option<(int, int)>) -> bool {
    let k = last_ws(raw, raw.len() - 1);
    if k < 0 {
        r is None
    } else {
        exists|h: Option<(int, int)>|
            #[trigger] parse_allows(trim(input_head(raw)), h) && r == (match h {
                Some(b) => offset_spec(b, trim(input_tail(raw))),
                None => None,
            })
    }
}

proof fn lemma_last_ws_bounds(s: Seq<char>, k: int)
    requires
        -1 <= k < s.len(),
    ensures
        -1 <= last_ws(s, k) <= k,
    decreases k + 1,
{
    if k >= 0 && !is_ws(s[k]) {
        lemma_last_ws_bounds(s, k - 1);
    }
}

/// One past the last whitespace character of `raw`, or 0 without one.
fn after_last_ws(raw: &str) -> (k: usize)
    ensures
        k as int == last_ws(raw@, raw@.len() - 1) + 1,
        k <= raw@.len(),
{
    let n = raw.unicode_len();
    proof {
        lemma_last_ws_bounds(raw@, n - 1);
    }
    let mut k: usize = n;
    while k > 0 && !char_is_ws(raw.get_char(k - 1))
        invariant
            n == raw@.len(),
            k <= n,
            last_ws(raw@, n - 1) == last_ws(raw@, k - 1),
        decreases k,
    {
        k = k - 1;
    }
    proof {
        lemma_last_ws_bounds(raw@, k - 1);
    }
    k
}

/// What reading `raw` gives from what `parse` gave for the whole input
/// (`whole`) and for the text before its last whitespace (`head`): the whole
/// input's instant wins; without one, nothing when there is no whitespace,
/// else the head's instant moved by the offset after the last whitespace.
pub open spec fn input_from_spec(
    raw: Seq<char>,
    whole: Option<(int, int)>,
    head: Option<(int, int)>,
) -> Option<(int, int)> {
    match whole {
        Some(p) => Some(p),
        None => if last_ws(raw, raw.len() - 1) < 0 {
            None
        } else {
            match head {
                Some(b) => offset_spec(b, trim(input_tail(raw))),
                None => None,
            }
        },
    }
}

/// Reads `raw` from what `parse` gave for the whole input and for its head
/// (the text before the last whitespace).
pub fn parse_input_from(raw: &str, whole: Option<UtcTime>, head: Option<UtcTime>) -> (r: Option<
    UtcTime,
>)
    requires
        (whole is None && last_ws(raw@, raw@.len() - 1) >= 0 && head is Some) ==> offset_ok(
            trim(input_tail(raw@)),
        ),
    ensures
        view_opt(r) == input_from_spec(raw@, view_opt(whole), view_opt(head)),
{
    if let Some(instant) = whole {
        return Some(instant);
    }
    let k = after_last_ws(raw);
    if k == 0 {
        return None;
    }
    let base = match head {
        Some(b) => b,
        None => return None,
    };
    let tail = raw.substring_char(k, raw.unicode_len());
    assert(tail@ == input_tail(raw@));
    offset(&base, trim_str(tail))
}

/// What reading `raw` gives, as far as the clock and the time zone do not
/// decide it: `input_from_spec` of some result `parse` may give for the whole
/// input and, where it is needed, for the head. In particular a whole input
/// that names an instant gives it, and "now" always reads.
pub open spec fn parse_input_outcome(raw: Seq<char>, r: Option<(int, int)>) -> bool {
    let k = last_ws(raw, raw.len() - 1);
    let head = trim(input_head(raw));
    let tail = trim(input_tail(raw));
    &&& parse_settled(raw) matches Some(Some(p)) ==> r == Some(p)
    &&& (trim(raw).len() > 0 && eq_ignore_case(trim(raw), "now"@)) ==> r is Some
    &&& exists|h: Option<(int, int)>|
        #[trigger] parse_allows(raw, h) && (match h {
            Some(p) => r == Some(p),
            None => fallback_outcome(raw, r),
        })
    &&& (parse_refuses(raw) && k < 0) ==> r is None
    &&& (parse_refuses(raw) && k >= 0) ==> {
        &&& parse_settled(head) matches Some(h) ==> r == (match h {
            Some(b) => offset_spec(b, tail),
            None => None,
        })
        &&& r is Some ==> offset_seconds(tail) is Some
    }
}

/// `input_from_spec` of results `parse` may give is an outcome of reading.
proof fn lemma_input_outcome(raw: Seq<char>, whole: Option<(int, int)>, head: Option<(int, int)>)
    requires
        parse_allows(raw, whole),
        (whole is None && last_ws(raw, raw.len() - 1) >= 0) ==> parse_allows(
            trim(input_head(raw)),
            head,
        ),
    ensures
        parse_input_outcome(raw, input_from_spec(raw, whole, head)),
{
    let r = input_from_spec(raw, whole, head);
    if whole is None && last_ws(raw, raw.len() - 1) >= 0 {
        assert(parse_allows(trim(input_head(raw)), head));
    }
    assert(parse_allows(raw, whole));
}

/// Full-string dates win ("2026-08-07 10:00"); otherwise the last
/// token may be an offset ("now +2h30m", "1786098721 -1d").
pub fn parse_input(raw: &str) -> (r: Option<UtcTime>)
    requires
        input_ok(raw@),
    ensures
        parse_input_outcome(raw@, view_opt(r)),
{
    let whole = parse(raw);
    let k = after_last_ws(raw);
    let head = if whole.is_none() && k > 0 {
        let text = raw.substring_char(0, k - 1);
        assert(text@ == input_head(raw@));
        parse(trim_str(text))
    } else {
        None
    };
    proof {
        lemma_input_outcome(raw@, view_opt(whole), view_opt(head));
    }
    parse_input_from(raw, whole, head)
}

/// Reads input where that cannot panic; `None` only where the head read an
/// instant and the offset token would overflow.
pub fn parse_input_checked(raw: &str) -> (r: Option<Option<UtcTime>>)
    ensures
        input_ok(raw@) ==> r is Some,
        r is None ==> last_ws(raw@, raw@.len() - 1) >= 0 && !parse_refuses(trim(input_head(raw@)))
            && !offset_ok(trim(input_tail(raw@))),
        r matches Some(o) ==> parse_input_outcome(raw@, view_opt(o)),
{
    let whole = parse(raw);
    let k = after_last_ws(raw);
    let head = if whole.is_none() && k > 0 {
        let text = raw.substring_char(0, k - 1);
        assert(text@ == input_head(raw@));
        parse(trim_str(text))
    } else {
        None
    };
    if head.is_some() {
        let tail = raw.substring_char(k, raw.unicode_len());
        assert(tail@ == input_tail(raw@));
        if !crate::convert::offset_fits(trim_str(tail)) {
            return None;
        }
    }
    proof {
        lemma_input_outcome(raw@, view_opt(whole), view_opt(head));
    }
    Some(parse_input_from(raw, whole, head))
}

/// `s` without the newlines at its end.
pub open spec fn strip_newlines(s: Seq<char>) -> Seq<char>
    decreases s.len(),
{
    if s.len() > 0 && s.last() == '\n' {
        strip_newlines(s.drop_last())
    } else {
        s
    }
}

/// The line a launcher printed as chosen, without the newlines at its end;
/// `None` when nothing was chosen.
pub fn launcher_choice(output: &str) -> (r: Option<String>)
    ensures
        r is None <==> strip_newlines(output@).len() == 0,
        r matches Some(c) ==> c@ == strip_newlines(output@),
{
    let n = output.unicode_len();
    let mut k: usize = n;
    assert(output@.subrange(0, n as int) =~= output@);
    while k > 0 && output.get_char(k - 1) == '\n'
        invariant
            n == output@.len(),
            k <= n,
            strip_newlines(output@) == strip_newlines(output@.subrange(0, k as int)),
        decreases k,
    {
        assert(output@.subrange(0, k as int).drop_last() =~= output@.subrange(0, k - 1));
        k = k - 1;
    }
    if k == 0 {
        assert(output@.subrange(0, 0) =~= Seq::<char>::empty());
        return None;
    }
    Some(String::from_str(output.substring_char(0, k)))
}

/// The history entry for a value copied from the panel at `at` (epoch
/// seconds); `None` for an empty value, which is not copied.
pub fn copied_entry(value: &str, at: i64) -> (r: Option<Entry>)
    ensures
        r is None <==> value@.len() == 0,
        r matches Some(e) ==> e@ == (at as int, "picker"@, value@),
{
    if value.unicode_len() == 0 {
        return None;
    }
    Some(Entry { at, format: String::from_str("picker"), value: String::from_str(value) })
}

} // verus!
