//! The bar text in seconds or milliseconds, and the short clock tooltip.

use crate::instant::{
    chrono_local_text, chrono_rfc3339_secs_z, chrono_utc_text, format_local, format_utc, millis_of,
    rfc3339_secs_z, simple_pattern, LocalTime, UtcTime,
};
use crate::formats::{custom_prefix, render_spec};
use crate::text::{has_prefix, i64_text, int_text, push_i64};
use vstd::prelude::*;

verus! {

/// Display format for the bar text.
#[derive(Clone, Copy, Debug, PartialEq, Eq, Structural)]
pub enum Format {
    Seconds,
    Millis,
}

impl Default for Format {
    fn default() -> (r: Format)
        ensures
            r == Format::Seconds,
    {
        Format::Seconds
    }
}

/// The other of the two bar formats.
pub open spec fn toggled_spec(f: Format) -> Format {
    match f {
        Format::Seconds => Format::Millis,
        Format::Millis => Format::Seconds,
    }
}

/// The CSS class name of a bar format.
pub open spec fn class_spec(f: Format) -> Seq<char> {
    match f {
        Format::Seconds => "seconds"@,
        Format::Millis => "millis"@,
    }
}

/// The bar text for an instant: whole seconds, or milliseconds, since the epoch.
pub open spec fn text_spec(now: (int, int), format: Format) -> Seq<char> {
    match format {
        Format::Seconds => int_text(now.0),
        Format::Millis => int_text(millis_of(now)),
    }
}

/// Pattern of the UTC line of the clock tooltip.
pub open spec fn utc_line_pattern() -> Seq<char> {
    "%Y-%m-%d %H:%M:%S"@
}

/// Pattern of the local line of the clock tooltip.
pub open spec fn local_line_pattern() -> Seq<char> {
    "%Y-%m-%d %H:%M:%S %Z"@
}

/// The clock tooltip: the epoch seconds in bold, then UTC, local and ISO lines.
pub open spec fn clock_tooltip_spec(utc: (int, int), local: (int, int, int)) -> Seq<char> {
    "<b>"@ + int_text(utc.0) + "</b> seconds since the epoch\nUTC    "@ + chrono_utc_text(
        utc,
        utc_line_pattern(),
    ) + "\nLocal  "@ + chrono_local_text(local, local_line_pattern()) + "\nISO    "@
        + chrono_rfc3339_secs_z(utc)
}

impl Format {
    /// Seconds and milliseconds swap.
    pub fn toggled(self) -> (r: Format)
        ensures
            r == toggled_spec(self),
    {
        match self {
            Format::Seconds => Format::Millis,
            Format::Millis => Format::Seconds,
        }
    }

    /// CSS class waybar attaches to the module for this format.
    pub fn class(self) -> (r: &'static str)
        ensures
            r@ == class_spec(self),
    {
        match self {
            Format::Seconds => "seconds",
            Format::Millis => "millis",
        }
    }
}

/// Toggling twice gives the format back.
pub proof fn lemma_toggle_involutive(f: Format)
    ensures
        toggled_spec(toggled_spec(f)) == f,
        toggled_spec(f) != f,
{
}

/// The class of a bar format names the format key that renders the same text
/// as the bar, at every instant.
pub proof fn lemma_class_renders_bar_text(f: Format, utc: (int, int), local: (int, int, int))
    ensures
        render_spec(class_spec(f), utc, local) == Some(text_spec(utc, f)),
{
    reveal_strlit("custom:");
    reveal_strlit("seconds");
    reveal_strlit("millis");
    assert("seconds"@.subrange(0, 7)[0] == 's');
    assert(!has_prefix("millis"@, custom_prefix()));
}

/// The bar text for `now` in `format`.
pub fn text(now: &UtcTime, format: Format) -> (r: String)
    ensures
        r@ == text_spec(now@, format),
{
    match format {
        Format::Seconds => i64_text(now.timestamp()),
        Format::Millis => i64_text(now.timestamp_millis()),
    }
}

/// The clock patterns only use the simple specifiers.
proof fn lemma_clock_patterns_simple()
    ensures
        simple_pattern(utc_line_pattern()),
        simple_pattern(local_line_pattern()),
{
    reveal_strlit("%Y-%m-%d %H:%M:%S");
    reveal_strlit("%Y-%m-%d %H:%M:%S %Z");
}

/// Tooltip with the epoch seconds and the UTC, local and ISO 8601 renderings.
pub fn tooltip(utc: &UtcTime, local: &LocalTime) -> (r: String)
    ensures
        r@ == clock_tooltip_spec(utc@, local@),
{
    proof {
        lemma_clock_patterns_simple();
    }
    let utc_line = match format_utc(utc, "%Y-%m-%d %H:%M:%S") {
        Some(s) => s,
        None => String::new(),
    };
    let local_line = match format_local(local, "%Y-%m-%d %H:%M:%S %Z") {
        Some(s) => s,
        None => String::new(),
    };
    let iso = rfc3339_secs_z(utc);
    let mut out = String::from_str("<b>");
    push_i64(&mut out, utc.timestamp());
    out.append("</b> seconds since the epoch\nUTC    ");
    out.append(utc_line.as_str());
    out.append("\nLocal  ");
    out.append(local_line.as_str());
    out.append("\nISO    ");
    out.append(iso.as_str());
    out
}

} // verus!
