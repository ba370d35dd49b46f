use waybar_unixtime::config::Custom;
use waybar_unixtime::formats::{
    badge_markup, is_valid_key, render, render_checked, specs, tooltip, tooltip_checked,
    RenderError, BADGE_TS,
};
use waybar_unixtime::instant::{LocalTime, UtcTime};

fn at() -> (UtcTime, LocalTime) {
    let utc = UtcTime::from_timestamp(1_785_407_677, 0).unwrap();
    (utc, LocalTime::of(&utc))
}

#[test]
fn renders_all_timestamp_precisions() {
    let (utc, local) = at();
    assert_eq!(render("seconds", &utc, &local).unwrap(), "1785407677");
    let cases = [
        ("millis", "1785407677000"),
        ("micros", "1785407677000000"),
        ("nanos", "1785407677000000000"),
    ];
    for (key, expected) in cases {
        assert_eq!(render(key, &utc, &local).unwrap(), expected);
    }
}

#[test]
fn renders_iso_utc_with_zulu_suffix() {
    let (utc, local) = at();
    assert_eq!(render("iso-utc", &utc, &local).unwrap(), "2026-07-30T10:34:37Z");
}

#[test]
fn renders_every_spec_without_panicking() {
    let (utc, local) = at();
    for spec in specs() {
        assert!(render(spec.key, &utc, &local).is_some(), "format {} failed", spec.key);
    }
}

#[test]
fn renders_custom_strftime_patterns() {
    let (utc, local) = at();
    let out = render("custom:%Y!%m", &utc, &local).unwrap();
    let expected = chrono::DateTime::from_timestamp(1_785_407_677, 0)
        .unwrap()
        .with_timezone(&chrono::Local)
        .format("%Y!%m")
        .to_string();
    assert_eq!(out, expected);
}

#[test]
fn unknown_key_returns_none() {
    let (utc, local) = at();
    assert!(render("klingon", &utc, &local).is_none());
}

#[test]
fn validates_keys_including_custom() {
    assert!(is_valid_key("seconds"));
    assert!(is_valid_key("custom:%Y"));
    assert!(!is_valid_key("bogus"));
}

#[test]
fn tooltip_lists_both_sections_and_all_labels() {
    let (utc, local) = at();
    let customs = vec![Custom {
        name: String::from("Deploy tag"),
        format: String::from("%Y%m%d-%H%M"),
    }];
    let tip = tooltip(&utc, &local, &customs, "millis");
    assert!(tip.contains("CUSTOM"));
    assert!(tip.contains("Deploy tag"));
    assert!(tip.contains("✓"));
    assert!(tip.contains(&badge_markup("TS", BADGE_TS)));
    let check_line = tip
        .lines()
        .find(|line| line.starts_with('✓'))
        .expect("active line marked");
    assert!(check_line.contains("Milliseconds"));
    assert!(tip.contains("TIMESTAMP"));
    assert!(tip.contains("DATE FORMATS"));
    for spec in specs() {
        assert!(tip.contains(spec.label), "missing {}", spec.label);
    }
    assert!(tip.starts_with("<tt>"));
    assert!(tip.ends_with("</tt>"));
}

#[test]
fn badge_chips_are_centered_in_four_columns() {
    assert_eq!(
        badge_markup("TS", "#000000"),
        "<span background=\"#000000\" foreground=\"#ffffff\"><b>  TS  </b></span>"
    );
    assert_eq!(
        badge_markup("ISO", "#111111"),
        "<span background=\"#111111\" foreground=\"#ffffff\"><b> ISO  </b></span>"
    );
    assert_eq!(
        badge_markup("UNIX", "#222222"),
        "<span background=\"#222222\" foreground=\"#ffffff\"><b> UNIX </b></span>"
    );
}

#[test]
fn fixed_offset_renders_local_formats() {
    let utc = UtcTime::from_timestamp(1_785_407_677, 0).unwrap();
    let local = LocalTime::with_offset(&utc, 2 * 3600).unwrap();
    assert_eq!(render("iso-local", &utc, &local).unwrap(), "2026-07-30 12:34:37");
    assert_eq!(render("iso-date", &utc, &local).unwrap(), "2026-07-30");
    assert_eq!(render("european", &utc, &local).unwrap(), "30.07.2026 12:34:37");
    assert_eq!(render("european-short", &utc, &local).unwrap(), "30.07.2026");
    assert_eq!(render("us", &utc, &local).unwrap(), "07/30/2026 12:34:37 PM");
    assert_eq!(render("us-short", &utc, &local).unwrap(), "7/30/2026");
    assert_eq!(render("british", &utc, &local).unwrap(), "30/07/2026 12:34:37");
    assert_eq!(
        render("japanese", &utc, &local).unwrap(),
        "2026年07月30日 12時34分37秒"
    );
    assert_eq!(
        render("rfc2822", &utc, &local).unwrap(),
        "Thu, 30 Jul 2026 12:34:37 +0200"
    );
    assert_eq!(
        render("unix-readable", &utc, &local).unwrap(),
        "Thu Jul 30 12:34:37 +02:00 2026"
    );
}

#[test]
fn nanos_out_of_i64_range_say_so() {
    let utc = UtcTime::from_timestamp(10_000_000_000, 0).unwrap();
    let local = LocalTime::with_offset(&utc, 0).unwrap();
    assert_eq!(render("nanos", &utc, &local).unwrap(), "out of range");
}

#[test]
fn checked_render_reports_bad_patterns_and_years() {
    let (utc, local) = at();
    assert_eq!(
        render_checked("custom:%Q", &utc, &local),
        Err(RenderError::BadPattern)
    );
    let far = UtcTime::from_timestamp(300_000_000_000, 0).unwrap();
    let far_local = LocalTime::with_offset(&far, 0).unwrap();
    assert_eq!(
        render_checked("rfc2822", &far, &far_local),
        Err(RenderError::YearOutOfRange)
    );
    assert_eq!(
        render_checked("seconds", &utc, &local),
        Ok(Some(String::from("1785407677")))
    );
    assert_eq!(render_checked("klingon", &utc, &local), Ok(None));
}

#[test]
fn checked_tooltip_refuses_invalid_custom_patterns() {
    let (utc, local) = at();
    let bad = vec![Custom {
        name: String::from("Broken"),
        format: String::from("%Q"),
    }];
    assert!(tooltip_checked(&utc, &local, &bad, "seconds").is_none());
    let none: Vec<Custom> = Vec::new();
    assert_eq!(
        tooltip_checked(&utc, &local, &none, "seconds"),
        Some(tooltip(&utc, &local, &none, "seconds"))
    );
}

#[test]
fn tooltip_without_customs_has_no_custom_section() {
    let (utc, local) = at();
    let tip = tooltip(&utc, &local, &Vec::new(), "seconds");
    assert!(!tip.contains("CUSTOM"));
    let first_row = tip.lines().nth(1).unwrap();
    assert!(first_row.starts_with('✓'));
    assert!(first_row.ends_with("1785407677"));
}
