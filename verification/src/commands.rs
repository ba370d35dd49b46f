//! What the `copy` and `formats` subcommands print.

use crate::formats::{
    builtin_value, format_table, is_valid_key, lemma_max_len_bounds, lemma_render_defined_iff_valid,
    lemma_table_keys_not_custom, lemma_table_keys_short, max_len, render, render_checked, render_ok, render_spec,
    rfc2822_year_ok, specs, valid_key_spec, RenderError, SPEC_COUNT,
};
use crate::instant::{LocalTime, UtcTime, YEAR_0_START, YEAR_10000_START};
use crate::picker::{aligned, aligned_spec};
use vstd::prelude::*;

verus! {

/// Why `copy` printed nothing.
#[derive(Clone, Copy, Debug, PartialEq, Eq, Structural)]
pub enum CopyError {
    /// The key names no format.
    UnknownFormat,
    /// The format cannot be rendered at this instant.
    Render(RenderError),
}

/// The key `copy` prints: the one asked for, else the bar's current one.
pub open spec fn copy_key(requested: Option<Seq<char>>, current: Seq<char>) -> Seq<char> {
    match requested {
        Some(k) => k,
        None => current,
    }
}

/// The text `copy` prints for `requested` (or the bar's `current` format) at an
/// instant: the rendering of that key, or why there is none.
pub fn copy_text(requested: Option<&str>, current: &str, utc: &UtcTime, local: &LocalTime) -> (r:
    Result<String, CopyError>)
    ensures
        ({
            let key = copy_key(
                match requested {
                    Some(k) => Some(k@),
                    None => None,
                },
                current@,
            );
            &&& r is Ok <==> valid_key_spec(key) && render_ok(key, local@)
            &&& r matches Ok(s) ==> render_spec(key, utc@, local@) == Some(s@)
            &&& r == Err::<String, CopyError>(CopyError::UnknownFormat) <==> !valid_key_spec(key)
            &&& r matches Err(CopyError::Render(_)) ==> valid_key_spec(key) && !render_ok(
                key,
                local@,
            )
        }),
{
    let key = match requested {
        Some(k) => k,
        None => current,
    };
    proof {
        lemma_render_defined_iff_valid(key@, utc@, local@);
    }
    if !is_valid_key(key) {
        return Err(CopyError::UnknownFormat);
    }
    match render_checked(key, utc, local) {
        Ok(Some(s)) => Ok(s),
        Ok(None) => Err(CopyError::UnknownFormat),
        Err(e) => Err(CopyError::Render(e)),
    }
}

/// The keys of the built-in formats, in panel order.
pub open spec fn builtin_keys() -> Seq<Seq<char>> {
    format_table().map_values(|e: (Seq<char>, Seq<char>, crate::formats::Group, Seq<char>, Seq<char>)| e.0)
}

/// The line that closes the listing: the shape of a custom key.
pub open spec fn custom_hint() -> Seq<char> {
    "custom:<strftime>\n"@
}

/// The listing lines of the first `n` built-in formats: each key, padded to the
/// longest key plus two spaces, then its value at the instant.
pub open spec fn listing_rows(n: int, utc: (int, int), local: (int, int, int)) -> Seq<char>
    decreases n,
{
    if n <= 0 {
        Seq::empty()
    } else {
        listing_rows(n - 1, utc, local) + aligned_spec(
            format_table()[n - 1].0,
            builtin_value(n - 1, utc, local),
            max_len(builtin_keys()) as int,
        ) + "\n"@
    }
}

/// What `formats` prints: every built-in key with its value at the instant,
/// then the shape of a custom key.
pub open spec fn listing_spec(utc: (int, int), local: (int, int, int)) -> Seq<char> {
    listing_rows(SPEC_COUNT as int, utc, local) + custom_hint()
}

/// Every format key with its value at an instant, one per line.
pub fn listing(utc: &UtcTime, local: &LocalTime) -> (r: String)
    requires
        rfc2822_year_ok(local@),
    ensures
        r@ == listing_spec(utc@, local@),
{
    proof {
        lemma_table_keys_not_custom();
        lemma_table_keys_short();
        lemma_max_len_bounds(builtin_keys());
        reveal_strlit("rfc2822");
    }
    let table = specs();
    let ghost keys = builtin_keys();
    let mut width: usize = 0;
    let mut k: usize = 0;
    assert(keys.take(0) =~= Seq::<Seq<char>>::empty());
    while k < table.len()
        invariant
            table@.len() == SPEC_COUNT,
            forall|j: int| 0 <= j < table@.len() ==> #[trigger] table@[j]@ == format_table()[j],
            keys == builtin_keys(),
            k <= table@.len(),
            width == max_len(keys.take(k as int)),
            width <= 14,
            forall|j: int| 0 <= j < SPEC_COUNT ==> #[trigger] format_table()[j].0.len() <= 14,
        decreases table@.len() - k,
    {
        assert(table@[k as int]@ == format_table()[k as int]);
        assert(keys.take(k + 1).drop_last() =~= keys.take(k as int));
        let n = table[k].key.unicode_len();
        assert(n == format_table()[k as int].0.len());
        if n > width {
            width = n;
        }
        k = k + 1;
    }
    assert(keys.take(SPEC_COUNT as int) =~= keys);
    let mut out = String::new();
    let mut i: usize = 0;
    while i < table.len()
        invariant
            table@.len() == SPEC_COUNT,
            forall|j: int| 0 <= j < table@.len() ==> #[trigger] table@[j]@ == format_table()[j],
            forall|j: int|
                0 <= j < SPEC_COUNT ==> !crate::text::has_prefix(
                    #[trigger] format_table()[j].0,
                    crate::formats::custom_prefix(),
                ),
            keys == builtin_keys(),
            forall|j: int| 0 <= j < keys.len() ==> #[trigger] keys[j].len() <= width,
            width == max_len(keys),
            width <= 14,
            rfc2822_year_ok(local@),
            i <= table@.len(),
            out@ == listing_rows(i as int, utc@, local@),
        decreases table@.len() - i,
    {
        let spec = table[i];
        assert(spec@ == format_table()[i as int]);
        assert(keys[i as int] == spec.key@);
        assert(!crate::text::has_prefix(format_table()[i as int].0, crate::formats::custom_prefix()));
        let value = match render(spec.key, utc, local) {
            Some(v) => v,
            None => String::new(),
        };
        let line = aligned(spec.key, value.as_str(), width);
        out.append(line.as_str());
        out.append("\n");
        i = i + 1;
    }
    out.append("custom:<strftime>\n");
    out
}

/// The listing where building it cannot panic; `None` when RFC 2822 would need
/// a year outside 0..=9999.
pub fn listing_checked(utc: &UtcTime, local: &LocalTime) -> (r: Option<String>)
    ensures
        r is Some <==> rfc2822_year_ok(local@),
        r matches Some(s) ==> s@ == listing_spec(utc@, local@),
{
    let wall = local.utc().timestamp() as i128 + local.offset_seconds() as i128;
    if !(YEAR_0_START as i128 <= wall && wall < YEAR_10000_START as i128) {
        return None;
    }
    Some(listing(utc, local))
}

} // verus!
