use waybar_unixtime::state::{class, static_class, toggled, DEFAULT_FORMAT};

#[test]
fn toggle_flips_seconds_and_millis() {
    assert_eq!(toggled("seconds"), "millis");
    assert_eq!(toggled("millis"), "seconds");
    assert_eq!(toggled("iso-utc"), "seconds");
}

#[test]
fn class_collapses_custom_patterns() {
    assert_eq!(class("seconds"), "seconds");
    assert_eq!(class("custom:%Y"), "custom");
}

#[test]
fn saved_format_wins_and_invalid_falls_back() {
    assert_eq!(waybar_unixtime::state::format(Some("iso-utc\n"), "seconds"), "iso-utc");
    assert_eq!(waybar_unixtime::state::format(Some("nonsense"), "seconds"), DEFAULT_FORMAT);
    assert_eq!(waybar_unixtime::state::format(Some("nonsense"), "millis"), "millis");
    assert_eq!(waybar_unixtime::state::format(None, "bogus"), DEFAULT_FORMAT);
    assert_eq!(waybar_unixtime::state::format(None, "custom:%H"), "custom:%H");
}

#[test]
fn static_classes_follow_the_key() {
    assert_eq!(static_class("nanos"), Some("nanos"));
    assert_eq!(static_class("custom:%H"), Some("custom"));
    assert_eq!(static_class("klingon"), None);
}
