use waybar_unixtime::clock::{text, tooltip, Format};
use waybar_unixtime::instant::{LocalTime, UtcTime};

fn at(secs: i64) -> UtcTime {
    UtcTime::from_timestamp(secs, 500_000_000).unwrap()
}

#[test]
fn formats_seconds_as_plain_integer() {
    assert_eq!(text(&at(1_700_000_000), Format::Seconds), "1700000000");
}

#[test]
fn formats_millis_including_subsecond_part() {
    assert_eq!(text(&at(1_700_000_000), Format::Millis), "1700000000500");
}

#[test]
fn toggling_flips_between_both_formats() {
    assert_eq!(Format::Seconds.toggled(), Format::Millis);
    assert_eq!(Format::Millis.toggled(), Format::Seconds);
}

#[test]
fn classes_match_format_names() {
    assert_eq!(Format::Seconds.class(), "seconds");
    assert_eq!(Format::Millis.class(), "millis");
}

#[test]
fn tooltip_contains_epoch_utc_and_iso_lines() {
    let utc = at(1_700_000_000);
    let tip = tooltip(&utc, &LocalTime::of(&utc));
    assert!(tip.contains("<b>1700000000</b>"));
    assert!(tip.contains("UTC    2023-11-14 22:13:20"));
    assert!(tip.contains("ISO    2023-11-14T22:13:20Z"));
}

#[test]
fn toggling_twice_is_identity() {
    for f in [Format::Seconds, Format::Millis] {
        assert_eq!(f.toggled().toggled(), f);
    }
}

#[test]
fn negative_timestamps_render_with_sign() {
    let t = UtcTime::from_timestamp(-1, 250_000_000).unwrap();
    assert_eq!(text(&t, Format::Seconds), "-1");
    assert_eq!(text(&t, Format::Millis), "-750");
}

#[test]
fn tooltip_local_line_uses_fixed_offset() {
    let utc = at(1_700_000_000);
    let local = LocalTime::with_offset(&utc, 3600).unwrap();
    let tip = tooltip(&utc, &local);
    assert_eq!(
        tip,
        "<b>1700000000</b> seconds since the epoch\nUTC    2023-11-14 22:13:20\n\
         Local  2023-11-14 23:13:20 +01:00\nISO    2023-11-14T22:13:20Z"
    );
}

#[test]
fn class_key_renders_the_bar_text() {
    let utc = at(1_700_000_000);
    let local = LocalTime::with_offset(&utc, 0).unwrap();
    for f in [Format::Seconds, Format::Millis] {
        let rendered = waybar_unixtime::formats::render(f.class(), &utc, &local).unwrap();
        assert_eq!(rendered, text(&utc, f));
    }
}
