//! The color palette of the active omarchy theme and the CSS generated from it.

use crate::text::{
    lemma_trim_after_lead, lemma_trim_idempotent, lemma_trim_of_trimmed, lemma_trim_shape, trim,
    trim_end, trim_str,
};
use vstd::prelude::*;

verus! {

/// Colors pulled from an omarchy theme's `colors.toml`.
#[derive(Debug, Clone, PartialEq, Eq)]
pub struct Palette {
    pub accent: String,
    pub foreground: String,
    pub background: String,
}

impl View for Palette {
    type V = (Seq<char>, Seq<char>, Seq<char>);

    open spec fn view(&self) -> (Seq<char>, Seq<char>, Seq<char>) {
        (self.accent@, self.foreground@, self.background@)
    }
}

/// The built-in palette: accent, foreground, background.
pub open spec fn default_palette() -> (Seq<char>, Seq<char>, Seq<char>) {
    ("#c9a554"@, "#c2c2b0"@, "#222222"@)
}

impl Default for Palette {
    fn default() -> (r: Palette)
        ensures
            r@ == default_palette(),
    {
        Palette {
            accent: String::from_str("#c9a554"),
            foreground: String::from_str("#c2c2b0"),
            background: String::from_str("#222222"),
        }
    }
}

/// What the string value of top-level `key` in the TOML document `text` is:
/// `None` when `text` is not TOML, `Some(None)` when the key is missing or its
/// value is not a string.
pub uninterp spec fn toml_field(text: Seq<char>, key: Seq<char>) -> Option<Option<Seq<char>>>;

/// `toml::from_str::<toml::Value>(text)`, then `get(key)` and `as_str`.
/// The contract claims that the outcome is a function of the text and the key.
#[verifier::external_body]
fn toml_string_field(text: &str, key: &str) -> (r: Option<Option<String>>)
    ensures
        r is None <==> toml_field(text@, key@) is None,
        r matches Some(Some(s)) ==> toml_field(text@, key@) == Some(Some(s@)),
        r matches Some(None) ==> toml_field(text@, key@) == Some(None::<Seq<char>>),
{
    let value: toml::Value = match toml::from_str(text) {
        Ok(v) => v,
        Err(_) => return None,
    };
    Some(value.get(key).and_then(|v| v.as_str()).map(|s| s.to_string()))
}

/// A color with surrounding whitespace dropped and a `#` in front.
pub open spec fn normalize_spec(color: Seq<char>) -> Seq<char> {
    let t = trim(color);
    if t.len() > 0 && t[0] == '#' {
        t
    } else {
        "#"@ + t
    }
}

/// A color trimmed, with a `#` in front unless it starts with one.
pub fn normalize(color: &str) -> (r: String)
    ensures
        r@ == normalize_spec(color@),
{
    let trimmed = trim_str(color);
    if trimmed.unicode_len() > 0 && trimmed.get_char(0) == '#' {
        String::from_str(trimmed)
    } else {
        let mut out = String::from_str("#");
        out.append(trimmed);
        out
    }
}

/// A normalized color starts with `#`, and normalizing it again changes
/// nothing.
pub proof fn lemma_normalize_idempotent(color: Seq<char>)
    ensures
        normalize_spec(color).len() > 0,
        normalize_spec(color)[0] == '#',
        normalize_spec(normalize_spec(color)) == normalize_spec(color),
{
    reveal_strlit("#");
    let t = trim(color);
    lemma_trim_shape(color);
    if t.len() > 0 && t[0] == '#' {
        lemma_trim_idempotent(color);
    } else {
        lemma_trim_of_trimmed(t);
        lemma_trim_after_lead('#', t);
        assert("#"@ =~= seq!['#']);
        assert(trim_end(t) == t) by {
            if t.len() > 0 {
                assert(!crate::text::is_ws(t.last()));
            }
        }
        assert(("#"@ + t)[0] == '#');
    }
}

/// The color a lookup yields: the normalized string, or the fallback.
pub open spec fn pick_color(found: Option<Seq<char>>, fallback: Seq<char>) -> Seq<char> {
    match found {
        Some(c) => normalize_spec(c),
        None => fallback,
    }
}

/// The palette a `colors.toml` text gives, `None` when it is not TOML; missing
/// or non-string keys keep the built-in color.
pub open spec fn parse_spec(text: Seq<char>) -> Option<(Seq<char>, Seq<char>, Seq<char>)> {
    let d = default_palette();
    match (
        toml_field(text, "accent"@),
        toml_field(text, "foreground"@),
        toml_field(text, "background"@),
    ) {
        (Some(a), Some(f), Some(b)) => Some(
            (pick_color(a, d.0), pick_color(f, d.1), pick_color(b, d.2)),
        ),
        _ => None,
    }
}

/// A TOML document sets each color it names as a string: the palette's
/// accent, foreground and background are the document's `accent`,
/// `foreground` and `background` strings, trimmed and with a `#` in front;
/// a color it leaves out (or gives as another kind of value) stays the
/// built-in one.
pub proof fn lemma_parse_takes_named_colors(text: Seq<char>)
    requires
        toml_field(text, "accent"@) is Some,
        toml_field(text, "foreground"@) is Some,
        toml_field(text, "background"@) is Some,
    ensures
        parse_spec(text) is Some,
        toml_field(text, "accent"@) matches Some(Some(s)) ==> parse_spec(text).unwrap().0
            == normalize_spec(s),
        toml_field(text, "foreground"@) matches Some(Some(s)) ==> parse_spec(text).unwrap().1
            == normalize_spec(s),
        toml_field(text, "background"@) matches Some(Some(s)) ==> parse_spec(text).unwrap().2
            == normalize_spec(s),
        toml_field(text, "accent"@) == Some(None::<Seq<char>>) ==> parse_spec(text).unwrap().0
            == "#c9a554"@,
        toml_field(text, "foreground"@) == Some(None::<Seq<char>>) ==> parse_spec(text).unwrap().1
            == "#c2c2b0"@,
        toml_field(text, "background"@) == Some(None::<Seq<char>>) ==> parse_spec(text).unwrap().2
            == "#222222"@,
{
}

fn color_or(found: Option<String>, fallback: &String) -> (r: String)
    ensures
        r@ == pick_color(
            match found {
                Some(s) => Some(s@),
                None => None,
            },
            fallback@,
        ),
{
    match found {
        Some(c) => normalize(c.as_str()),
        None => fallback.clone(),
    }
}

/// Parse an omarchy `colors.toml`, tolerating missing keys.
pub fn parse(text: &str) -> (r: Option<Palette>)
    ensures
        r matches Some(p) ==> parse_spec(text@) == Some(p@),
        r is None ==> parse_spec(text@) is None,
{
    let defaults = Palette::default();
    let accent = match toml_string_field(text, "accent") {
        Some(found) => color_or(found, &defaults.accent),
        None => return None,
    };
    let foreground = match toml_string_field(text, "foreground") {
        Some(found) => color_or(found, &defaults.foreground),
        None => return None,
    };
    let background = match toml_string_field(text, "background") {
        Some(found) => color_or(found, &defaults.background),
        None => return None,
    };
    Some(Palette { accent, foreground, background })
}

/// The comment and color definitions that open the stylesheet.
pub open spec fn css_head() -> Seq<char> {
    "/* waybar-unixtime \u{2014} generated from the active omarchy theme.\n * Regenerate with: waybar-unixtime css --install\n */\n@define-color unixtime-accent "@
}

pub open spec fn module_rule() -> Seq<char> {
    "#custom-unixtime {\n  color: @unixtime-fg;\n  padding: 0 12px;\n  font-family: monospace;\n}\n"@
}

pub open spec fn accent_rule() -> Seq<char> {
    "\n#custom-unixtime.millis,\n#custom-unixtime.micros,\n#custom-unixtime.nanos,\n#custom-unixtime.custom {\n  color: @unixtime-accent;\n}\n"@
}

pub open spec fn tooltip_rule() -> Seq<char> {
    "\ntooltip {\n  background: @unixtime-bg;\n  color: @unixtime-fg;\n  border: 1px solid alpha(@unixtime-accent, 0.5);\n  border-radius: 12px;\n}\n"@
}

pub open spec fn menu_rule() -> Seq<char> {
    "\nmenu {\n  background: @unixtime-bg;\n  color: @unixtime-fg;\n  border: 1px solid alpha(@unixtime-accent, 0.5);\n  border-radius: 12px;\n  padding: 8px 4px;\n}\n"@
}

pub open spec fn menuitem_rule() -> Seq<char> {
    "\nmenu menuitem {\n  padding: 5px 12px;\n  border-radius: 8px;\n  font-family: monospace;\n}\n"@
}

pub open spec fn hover_rule() -> Seq<char> {
    "\nmenu menuitem:hover {\n  background: alpha(@unixtime-accent, 0.25);\n}\n"@
}

pub open spec fn separator_rule() -> Seq<char> {
    "\nmenu separator {\n  background: alpha(@unixtime-fg, 0.15);\n  margin: 6px 10px;\n}\n"@
}

/// The waybar stylesheet for a palette.
pub open spec fn css_spec(p: (Seq<char>, Seq<char>, Seq<char>)) -> Seq<char> {
    css_head() + p.0 + ";\n@define-color unixtime-fg "@ + p.1 + ";\n@define-color unixtime-bg "@ + p.2
        + ";\n\n"@ + module_rule() + accent_rule() + tooltip_rule() + menu_rule() + menuitem_rule()
        + hover_rule() + separator_rule()
}

/// Render the waybar CSS snippet for a palette.
///
/// The snippet only uses `unixtime-*` named colors, so it can be
/// `@import`-ed into any waybar stylesheet without collisions. Every
/// omarchy theme switch just regenerates this file.
pub fn css(palette: &Palette) -> (r: String)
    ensures
        r@ == css_spec(palette@),
{
    let mut out = String::from_str(
        "/* waybar-unixtime \u{2014} generated from the active omarchy theme.\n * Regenerate with: waybar-unixtime css --install\n */\n@define-color unixtime-accent ",
    );
    out.append(palette.accent.as_str());
    out.append(";\n@define-color unixtime-fg ");
    out.append(palette.foreground.as_str());
    out.append(";\n@define-color unixtime-bg ");
    out.append(palette.background.as_str());
    out.append(";\n\n");
    out.append("#custom-unixtime {\n  color: @unixtime-fg;\n  padding: 0 12px;\n  font-family: monospace;\n}\n");
    out.append("\n#custom-unixtime.millis,\n#custom-unixtime.micros,\n#custom-unixtime.nanos,\n#custom-unixtime.custom {\n  color: @unixtime-accent;\n}\n");
    out.append("\ntooltip {\n  background: @unixtime-bg;\n  color: @unixtime-fg;\n  border: 1px solid alpha(@unixtime-accent, 0.5);\n  border-radius: 12px;\n}\n");
    out.append("\nmenu {\n  background: @unixtime-bg;\n  color: @unixtime-fg;\n  border: 1px solid alpha(@unixtime-accent, 0.5);\n  border-radius: 12px;\n  padding: 8px 4px;\n}\n");
    out.append("\nmenu menuitem {\n  padding: 5px 12px;\n  border-radius: 8px;\n  font-family: monospace;\n}\n");
    out.append("\nmenu menuitem:hover {\n  background: alpha(@unixtime-accent, 0.25);\n}\n");
    out.append("\nmenu separator {\n  background: alpha(@unixtime-fg, 0.15);\n  margin: 6px 10px;\n}\n");
    out
}

} // verus!
