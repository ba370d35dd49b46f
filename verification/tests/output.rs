use waybar_unixtime::clock::Format;
use waybar_unixtime::instant::{LocalTime, UtcTime};
use waybar_unixtime::output::Line;

#[test]
fn serializes_all_waybar_fields() {
    let line = Line {
        text: String::from("1700000000"),
        tooltip: String::from("tip"),
        class: "seconds",
    };
    assert_eq!(
        line.to_json(),
        "{\"text\":\"1700000000\",\"tooltip\":\"tip\",\
         \"class\":\"seconds\"}",
    );
}

#[test]
fn now_produces_numeric_text_and_matching_class() {
    let line = Line::now(Format::Millis);
    assert!(line.text.chars().all(|c| c.is_ascii_digit()));
    assert!(line.text.len() >= 13);
    assert_eq!(line.class, "millis");
}

#[test]
fn json_escapes_quotes_and_newlines() {
    let line = Line {
        text: String::from("a\"b"),
        tooltip: String::from("x\ny"),
        class: "custom",
    };
    assert_eq!(
        line.to_json(),
        "{\"text\":\"a\\\"b\",\"tooltip\":\"x\\ny\",\"class\":\"custom\"}"
    );
}

#[test]
fn line_at_an_instant_matches_the_clock() {
    let utc = UtcTime::from_timestamp(1_700_000_000, 0).unwrap();
    let local = LocalTime::with_offset(&utc, 0).unwrap();
    let line = Line::at(&utc, &local, Format::Seconds);
    assert_eq!(line.text, "1700000000");
    assert_eq!(line.class, "seconds");
    assert!(line.tooltip.starts_with("<b>1700000000</b>"));
}

#[test]
fn once_emits_valid_waybar_json_with_full_tooltip() {
    let utc = UtcTime::now();
    let local = LocalTime::of(&utc);
    let key = waybar_unixtime::state::format(None, "seconds");
    let line = Line::for_key_checked(&key, &utc, &local, &Vec::new()).unwrap();
    let out = line.to_json();
    let value: serde_json::Value = serde_json::from_str(out.trim()).expect("valid JSON");
    assert!(value["text"].as_str().unwrap().len() >= 10);
    let tooltip = value["tooltip"].as_str().unwrap();
    assert!(tooltip.contains("TIMESTAMP"));
    assert!(tooltip.contains("RFC 2822"));
}

#[test]
fn set_then_once_uses_persisted_format() {
    let utc = UtcTime::now();
    let local = LocalTime::of(&utc);
    let key = waybar_unixtime::state::format(Some("nanos"), "seconds");
    let line = Line::for_key_checked(&key, &utc, &local, &Vec::new()).unwrap();
    let value: serde_json::Value = serde_json::from_str(line.to_json().trim()).unwrap();
    assert_eq!(value["class"], "nanos");
    assert!(value["text"].as_str().unwrap().len() >= 19);
}

#[test]
fn line_for_a_key_checks_it_and_classes_customs() {
    let utc = UtcTime::from_timestamp(1_700_000_000, 0).unwrap();
    let local = LocalTime::with_offset(&utc, 0).unwrap();
    assert!(Line::for_key_checked("klingon", &utc, &local, &Vec::new()).is_none());
    assert!(Line::for_key_checked("custom:%Q", &utc, &local, &Vec::new()).is_none());
    let line = Line::for_key_checked("custom:%Y", &utc, &local, &Vec::new()).unwrap();
    assert_eq!(line.text, "2023");
    assert_eq!(line.class, "custom");
    assert!(!line.tooltip.contains("✓"));
    let millis = Line::for_key_checked("millis", &utc, &local, &Vec::new()).unwrap();
    assert_eq!(millis.text, "1700000000000");
    assert_eq!(millis.class, "millis");
    assert!(millis.tooltip.contains("✓"));
}

#[test]
fn json_escapes_control_characters_in_hex() {
    let line = Line {
        text: String::from("\u{1}\u{1f}"),
        tooltip: String::from("a\tb\\c\r\u{8}\u{c}"),
        class: "seconds",
    };
    assert_eq!(
        line.to_json(),
        "{\"text\":\"\\u0001\\u001f\",\"tooltip\":\"a\\tb\\\\c\\r\\b\\f\",\"class\":\"seconds\"}"
    );
}
