use waybar_unixtime::commands::{copy_text, listing, listing_checked, CopyError};
use waybar_unixtime::formats::RenderError;
use waybar_unixtime::instant::{LocalTime, UtcTime};

fn at(secs: i64) -> (UtcTime, LocalTime) {
    let utc = UtcTime::from_timestamp(secs, 0).unwrap();
    (utc, LocalTime::with_offset(&utc, 0).unwrap())
}

#[test]
fn copy_with_format_renders_that_format() {
    let utc = UtcTime::now();
    let local = LocalTime::of(&utc);
    let out = copy_text(Some("millis"), "seconds", &utc, &local).unwrap();
    let trimmed = out.trim();
    assert!(trimmed.chars().all(|c| c.is_ascii_digit()));
    assert!(trimmed.len() >= 13);

    let iso = copy_text(Some("iso-utc"), "seconds", &utc, &local).unwrap();
    assert!(iso.trim().ends_with('Z'));
}

#[test]
fn copy_rejects_unknown_format() {
    let (utc, local) = at(0);
    assert_eq!(
        copy_text(Some("klingon"), "seconds", &utc, &local),
        Err(CopyError::UnknownFormat)
    );
}

#[test]
fn copy_without_a_key_prints_the_bar_format() {
    let (utc, local) = at(1_700_000_000);
    assert_eq!(copy_text(None, "seconds", &utc, &local).unwrap(), "1700000000");
    assert_eq!(copy_text(None, "custom:%Y", &utc, &local).unwrap(), "2023");
    assert_eq!(
        copy_text(None, "custom:%Q", &utc, &local),
        Err(CopyError::Render(RenderError::BadPattern))
    );
    let (far, far_local) = at(300_000_000_000);
    assert_eq!(
        copy_text(Some("rfc2822"), "seconds", &far, &far_local),
        Err(CopyError::Render(RenderError::YearOutOfRange))
    );
}

#[test]
fn formats_lists_all_keys() {
    let utc = UtcTime::now();
    let local = LocalTime::of(&utc);
    let out = listing_checked(&utc, &local).unwrap();
    for key in ["seconds", "nanos", "iso-utc", "japanese", "custom:"] {
        assert!(out.contains(key), "missing {key}");
    }
}

#[test]
fn listing_aligns_values_after_the_longest_key() {
    let (utc, local) = at(1_700_000_000);
    let out = listing(&utc, &local);
    let lines: Vec<&str> = out.lines().collect();
    assert_eq!(lines.len(), 16);
    assert_eq!(lines[0], format!("{:<16}{}", "seconds", "1700000000"));
    assert_eq!(lines[8], "european-short  14.11.2023");
    assert_eq!(lines[15], "custom:<strftime>");
    let (far, far_local) = at(300_000_000_000);
    assert!(listing_checked(&far, &far_local).is_none());
}
