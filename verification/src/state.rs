//! Which format the bar shows: resolving the saved choice, toggling it and
//! naming its CSS class.

use crate::formats::{
    custom_prefix, format_table, is_valid_key, lemma_builtin_keys_valid, specs, valid_key_spec,
    SPEC_COUNT,
};
use crate::text::{has_prefix, starts_with, str_eq, trim, trim_str};
use vstd::prelude::*;

verus! {

/// The format shown when nothing valid has been saved or configured.
pub const DEFAULT_FORMAT: &'static str = "seconds";

/// The bar format: the saved key (trimmed) when valid, else the configured
/// default when valid, else seconds.
pub open spec fn format_spec(saved: Option<Seq<char>>, configured: Seq<char>) -> Seq<char> {
    match saved {
        Some(raw) if valid_key_spec(trim(raw)) => trim(raw),
        _ => if valid_key_spec(configured) {
            configured
        } else {
            DEFAULT_FORMAT@
        },
    }
}

/// Current display format from the saved state file's text (if it could be
/// read) and the configured default.
pub fn format(saved: Option<&str>, configured: &str) -> (r: String)
    ensures
        r@ == format_spec(
            match saved {
                Some(s) => Some(s@),
                None => None,
            },
            configured@,
        ),
{
    if let Some(raw) = saved {
        let key = trim_str(raw);
        if is_valid_key(key) {
            return String::from_str(key);
        }
    }
    if is_valid_key(configured) {
        String::from_str(configured)
    } else {
        String::from_str(DEFAULT_FORMAT)
    }
}

/// Whatever was saved and configured, the bar shows a valid format key.
pub proof fn lemma_format_always_valid(saved: Option<Seq<char>>, configured: Seq<char>)
    ensures
        valid_key_spec(format_spec(saved, configured)),
{
    lemma_builtin_keys_valid(0);
    assert(format_table()[0].0 == DEFAULT_FORMAT@);
}

/// A saved valid key without surrounding whitespace is read back as it was
/// saved, whatever the configured default.
pub proof fn lemma_saved_format_read_back(key: Seq<char>, configured: Seq<char>)
    requires
        valid_key_spec(key),
        trim(key) == key,
    ensures
        format_spec(Some(key), configured) == key,
{
}

/// A saved text that is no valid key leaves the configured default in force,
/// or seconds when that is not valid either.
pub proof fn lemma_invalid_saved_falls_back(raw: Seq<char>, configured: Seq<char>)
    requires
        !valid_key_spec(trim(raw)),
    ensures
        format_spec(Some(raw), configured) == format_spec(None, configured),
        !valid_key_spec(configured) ==> format_spec(Some(raw), configured) == DEFAULT_FORMAT@,
{
}

/// The format a toggle switches to.
pub open spec fn toggled_spec(current: Seq<char>) -> Seq<char> {
    if current == "seconds"@ {
        "millis"@
    } else {
        "seconds"@
    }
}

/// Flip between seconds and milliseconds; any other format returns
/// to seconds.
pub fn toggled(current: &str) -> (r: &'static str)
    ensures
        r@ == toggled_spec(current@),
{
    if str_eq(current, "seconds") {
        "millis"
    } else {
        "seconds"
    }
}

/// Toggling lands on seconds or milliseconds, and toggling twice gives seconds
/// back from seconds and milliseconds from anything else.
pub proof fn lemma_toggle_cycle(current: Seq<char>)
    ensures
        toggled_spec(toggled_spec(current)) == (if current == "seconds"@ {
            "seconds"@
        } else {
            "millis"@
        }),
        toggled_spec(current) == "seconds"@ || toggled_spec(current) == "millis"@,
{
    reveal_strlit("seconds");
    reveal_strlit("millis");
}

/// The CSS class of a format key.
pub open spec fn class_spec(key: Seq<char>) -> Seq<char> {
    if has_prefix(key, custom_prefix()) {
        "custom"@
    } else {
        key
    }
}

/// CSS class for the current format (custom patterns share one).
pub fn class(key: &str) -> (r: String)
    ensures
        r@ == class_spec(key@),
{
    if starts_with(key, "custom:") {
        String::from_str("custom")
    } else {
        String::from_str(key)
    }
}

/// The CSS class of a format key as a static string, for the bar's output
/// line; `None` for a key that names no format.
pub fn static_class(key: &str) -> (r: Option<&'static str>)
    ensures
        r is Some <==> valid_key_spec(key@),
        r matches Some(c) ==> c@ == class_spec(key@),
{
    if starts_with(key, "custom:") {
        proof {
            reveal_strlit("custom");
        }
        return Some("custom");
    }
    let table = specs();
    let mut i: usize = 0;
    while i < table.len()
        invariant
            table@.len() == SPEC_COUNT,
            forall|j: int| 0 <= j < table@.len() ==> #[trigger] table@[j]@ == format_table()[j],
            i <= table@.len(),
            forall|j: int| 0 <= j < i ==> format_table()[j].0 != key@,
            !has_prefix(key@, custom_prefix()),
        decreases table@.len() - i,
    {
        assert(table@[i as int]@ == format_table()[i as int]);
        if str_eq(table[i].key, key) {
            assert(format_table()[i as int].0 == key@);
            return Some(table[i].key);
        }
        i = i + 1;
    }
    None
}

} // verus!
