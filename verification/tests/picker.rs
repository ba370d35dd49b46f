use waybar_unixtime::picker::{copied_entry, launcher_choice, parse_input_from};
use waybar_unixtime::formats::specs;
use waybar_unixtime::history::Entry;
use waybar_unixtime::instant::{LocalTime, UtcTime};
use waybar_unixtime::picker::{
    aligned, ago, format_lines, history_line, history_value, panel_choice, parse_input,
    parse_input_checked, value_of, PanelChoice, CONVERT_ENTRY, HISTORY_ENTRY,
};

#[test]
fn value_of_takes_the_last_column() {
    assert_eq!(value_of("Seconds     1786098721"), "1786098721");
    assert_eq!(
        value_of("ISO 8601 UTC  2026-08-07T10:30:06Z"),
        "2026-08-07T10:30:06Z",
    );
}

#[test]
fn format_lines_cover_all_specs() {
    let utc = UtcTime::now();
    let lines = format_lines(&utc, &LocalTime::of(&utc), &Vec::new());
    assert!(lines.len() >= specs().len());
}

#[test]
fn aligned_lines_copy_back_their_value() {
    let line = aligned("US", "07/30/2026 12:34:37 PM", 16);
    assert_eq!(line, "US                07/30/2026 12:34:37 PM");
    assert_eq!(value_of(&line), "07/30/2026 12:34:37 PM");
    assert_eq!(value_of("no separator"), "no separator");
}

#[test]
fn ages_pick_the_coarsest_unit() {
    let entry = Entry { at: 1_000, format: String::from("seconds"), value: String::from("1") };
    assert_eq!(ago(&entry, 1_089), "(89s ago)");
    assert_eq!(ago(&entry, 1_090), "(1m ago)");
    assert_eq!(ago(&entry, 1_000 + 5_399), "(89m ago)");
    assert_eq!(ago(&entry, 1_000 + 5_400), "(1h ago)");
    assert_eq!(ago(&entry, 1_000 + 129_600), "(1d ago)");
    assert_eq!(ago(&entry, 990), "(-10s ago)");
}

#[test]
fn history_lines_copy_back_their_value() {
    let entry = Entry { at: 0, format: String::from("picker"), value: String::from("1786098721") };
    let line = history_line(&entry, 30);
    assert_eq!(line, "1786098721  ·  picker (30s ago)");
    assert_eq!(history_value(&line), "1786098721");
    assert_eq!(history_value("(empty)"), "(empty)");
}

#[test]
fn panel_choices_route_to_the_right_flow() {
    assert_eq!(panel_choice(CONVERT_ENTRY), PanelChoice::Convert);
    assert_eq!(panel_choice(HISTORY_ENTRY), PanelChoice::History);
    assert_eq!(
        panel_choice("Seconds     1786098721"),
        PanelChoice::Copy(String::from("1786098721"))
    );
}

#[test]
fn input_with_an_offset_token_is_shifted() {
    assert_eq!(parse_input("1786098721").unwrap().timestamp(), 1_786_098_721);
    assert_eq!(parse_input("1786098721 -1d").unwrap().timestamp(), 1_786_098_721 - 86_400);
    assert_eq!(parse_input("1786098721 +2h30m").unwrap().timestamp(), 1_786_098_721 + 9_000);
    assert!(parse_input("now +2h30m").is_some());
    assert!(parse_input("nonsense -1d").is_none());
    assert!(parse_input("1786098721 +2x").is_none());
    assert_eq!(parse_input_checked("1 +999999999999999w"), None);
    assert_eq!(parse_input_checked("5"), Some(parse_input("5")));
}

#[test]
fn launcher_output_loses_its_trailing_newlines() {
    assert_eq!(launcher_choice("Seconds  17\n\n"), Some(String::from("Seconds  17")));
    assert_eq!(launcher_choice("a\nb"), Some(String::from("a\nb")));
    assert_eq!(launcher_choice("\n"), None);
    assert_eq!(launcher_choice(""), None);
}

#[test]
fn copied_values_become_picker_entries() {
    assert_eq!(copied_entry("", 5), None);
    let entry = copied_entry("1786098721", 5).unwrap();
    assert_eq!(entry, Entry { at: 5, format: String::from("picker"), value: String::from("1786098721") });
}

#[test]
fn whole_input_wins_over_head_and_offset() {
    let date = UtcTime::from_timestamp(1_786_098_000, 0).unwrap();
    let head = UtcTime::from_timestamp(1_786_098_721, 0).unwrap();
    assert_eq!(
        parse_input_from("2026-08-07 10:00", Some(date), Some(head)),
        Some(date)
    );
    assert_eq!(
        parse_input_from("1786098721 +1h", None, Some(head)).unwrap().timestamp(),
        1_786_102_321
    );
    assert_eq!(parse_input_from("garbage +1h", None, None), None);
    assert_eq!(parse_input_from("garbage", None, Some(head)), None);
    assert_eq!(parse_input_from("1786098721 +1x", None, Some(head)), None);
}

#[test]
fn only_an_overflowing_offset_after_a_read_head_is_refused() {
    assert_eq!(parse_input_checked("garbage 9000000000000000000w"), Some(None));
    assert_eq!(parse_input_checked("1786098721 9000000000000000000w"), None);
    assert_eq!(
        parse_input_checked("1786098721 -1d").unwrap().unwrap().timestamp(),
        1_786_098_721 - 86_400
    );
}
