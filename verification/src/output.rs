//! The JSON line waybar reads from a custom module.

use crate::clock::{class_spec, clock_tooltip_spec, text, text_spec, tooltip, Format};
use crate::config::Custom;
use crate::formats::{
    customs_renderable, is_valid_key, lemma_render_defined_iff_valid, render, render_checked,
    render_ok, render_spec, tooltip as panel_tooltip, tooltip_ok, tooltip_spec, valid_key_spec,
};
use crate::instant::{LocalTime, UtcTime};
use crate::state::static_class;
use vstd::prelude::*;

verus! {

/// One line of waybar custom-module JSON output.
#[derive(Debug, PartialEq, Eq)]
pub struct Line {
    pub text: String,
    pub tooltip: String,
    pub class: &'static str,
}

/// A lowercase hexadecimal digit.
pub open spec fn hex_digit(d: int) -> char {
    if d < 10 {
        (48 + d) as char
    } else {
        (87 + d) as char
    }
}

/// How `serde_json` writes one character inside a string literal: a quote, a
/// backslash and the control characters with short names get a backslash
/// escape, the other control characters `\u00XX` in lowercase hex, and every
/// other character stands as it is.
pub open spec fn json_char(c: char) -> Seq<char> {
    if c == '"' {
        seq!['\\', '"']
    } else if c == '\\' {
        seq!['\\', '\\']
    } else if c == '\u{8}' {
        seq!['\\', 'b']
    } else if c == '\t' {
        seq!['\\', 't']
    } else if c == '\n' {
        seq!['\\', 'n']
    } else if c == '\u{c}' {
        seq!['\\', 'f']
    } else if c == '\r' {
        seq!['\\', 'r']
    } else if (c as int) < 32 {
        seq!['\\', 'u', '0', '0', hex_digit((c as int) / 16), hex_digit((c as int) % 16)]
    } else {
        seq![c]
    }
}

/// The characters of `s`, each written as `json_char` writes it.
pub open spec fn json_escape(s: Seq<char>) -> Seq<char>
    decreases s.len(),
{
    if s.len() == 0 {
        Seq::empty()
    } else {
        json_escape(s.drop_last()) + json_char(s.last())
    }
}

/// The JSON string literal `serde_json` writes for `s`: quotes around its
/// escaped characters.
pub open spec fn json_text(s: Seq<char>) -> Seq<char> {
    seq!['"'] + json_escape(s) + seq!['"']
}

/// `serde_json::to_string(s)` for a string slice. The contract claims what
/// `format_escaped_str` in the source writes (`json_text`), and success:
/// serializing a `str` only writes into a `Vec<u8>`, which cannot fail.
#[verifier::external_body]
fn json_string(s: &str) -> (r: Option<String>)
    ensures
        r is Some,
        r matches Some(j) ==> j@ == json_text(s@),
{
    serde_json::to_string(s).ok()
}

/// The JSON object of a line: its three fields, in order, without spaces.
pub open spec fn json_spec(text: Seq<char>, tooltip: Seq<char>, class: Seq<char>) -> Seq<char> {
    "{\"text\":"@ + json_text(text) + ",\"tooltip\":"@ + json_text(tooltip) + ",\"class\":"@
        + json_text(class) + "}"@
}

impl Line {
    /// The line for an instant and its local counterpart, in `format`.
    pub fn at(utc: &UtcTime, local: &LocalTime, format: Format) -> (r: Line)
        ensures
            r.text@ == text_spec(utc@, format),
            r.tooltip@ == clock_tooltip_spec(utc@, local@),
            r.class@ == class_spec(format),
    {
        Line { text: text(utc, format), tooltip: tooltip(utc, local), class: format.class() }
    }

    /// The line for the current time.
    pub fn now(format: Format) -> (r: Line)
        ensures
            exists|utc: (int, int), local: (int, int, int)|
                utc.0 == local.0 && utc.1 == local.1 && r.text@ == text_spec(utc, format)
                    && r.tooltip@ == clock_tooltip_spec(utc, local),
            r.class@ == class_spec(format),
    {
        let utc = UtcTime::now();
        let local = LocalTime::of(&utc);
        Line::at(&utc, &local, format)
    }

    /// The line that shows format `key`: its rendering as text, the panel of
    /// every format (with `key` checked) as tooltip, and the key's CSS class.
    pub fn for_key(key: &str, utc: &UtcTime, local: &LocalTime, customs: &Vec<Custom>) -> (r: Line)
        requires
            valid_key_spec(key@),
            render_ok(key@, local@),
            tooltip_ok(local@, customs@),
        ensures
            render_spec(key@, utc@, local@) == Some(r.text@),
            r.tooltip@ == tooltip_spec(utc@, local@, customs@, key@),
            r.class@ == crate::state::class_spec(key@),
    {
        proof {
            lemma_render_defined_iff_valid(key@, utc@, local@);
        }
        let text = match render(key, utc, local) {
            Some(t) => t,
            None => String::new(),
        };
        let class = match static_class(key) {
            Some(c) => c,
            None => "",
        };
        Line { text, tooltip: panel_tooltip(utc, local, customs, key), class }
    }

    /// `for_key` where building the line cannot panic; `None` for a key that
    /// names no format, a custom pattern that does not parse, or a year that
    /// RFC 2822 cannot write.
    pub fn for_key_checked(key: &str, utc: &UtcTime, local: &LocalTime, customs: &Vec<Custom>) -> (r:
        Option<Line>)
        ensures
            r is Some <==> (valid_key_spec(key@) && render_ok(key@, local@) && tooltip_ok(
                local@,
                customs@,
            )),
            r matches Some(l) ==> {
                &&& render_spec(key@, utc@, local@) == Some(l.text@)
                &&& l.tooltip@ == tooltip_spec(utc@, local@, customs@, key@)
                &&& l.class@ == crate::state::class_spec(key@)
            },
    {
        if !is_valid_key(key) || !customs_renderable(local, customs) {
            return None;
        }
        proof {
            lemma_render_defined_iff_valid(key@, utc@, local@);
        }
        match render_checked(key, utc, local) {
            Ok(Some(text)) => {
                let class = match static_class(key) {
                    Some(c) => c,
                    None => "",
                };
                Some(Line { text, tooltip: panel_tooltip(utc, local, customs, key), class })
            },
            _ => None,
        }
    }

    /// The line as compact JSON.
    pub fn to_json(&self) -> (r: String)
        ensures
            r@ == json_spec(self.text@, self.tooltip@, self.class@),
    {
        let text = json_string(self.text.as_str());
        let tip = json_string(self.tooltip.as_str());
        let class = json_string(self.class);
        match (text, tip, class) {
            (Some(text), Some(tip), Some(class)) => {
                let mut out = String::from_str("{\"text\":");
                out.append(text.as_str());
                out.append(",\"tooltip\":");
                out.append(tip.as_str());
                out.append(",\"class\":");
                out.append(class.as_str());
                out.append("}");
                out
            },
            // Serialization of plain strings cannot fail; keep a
            // harmless fallback rather than panicking inside waybar.
            _ => String::from_str("{\"text\":\"?\"}"),
        }
    }
}

} // verus!
