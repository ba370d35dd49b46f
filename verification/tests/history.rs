use waybar_unixtime::history::{frame, lines, list, record, Entry};

fn entry(n: i64) -> Entry {
    Entry { at: n, format: String::from("seconds"), value: n.to_string() }
}

#[test]
fn recording_caps_and_listing_is_newest_first() {
    let mut history: Vec<Entry> = Vec::new();
    for n in 0..5 {
        history = record(history, entry(n), 3).unwrap();
    }
    let listed = list(history.clone(), 10);
    assert_eq!(listed.len(), 3);
    assert_eq!(listed[0].at, 4);
    assert_eq!(listed[2].at, 2);
    assert!(record(history, entry(9), 0).is_none());
    assert_eq!(list(vec![entry(1), entry(2)], 1), vec![entry(2)]);
}

#[test]
fn history_file_lines_round_trip() {
    let body = frame(&vec![String::from("{\"a\":1}"), String::from("x")]);
    assert_eq!(body, "{\"a\":1}\nx\n");
    assert_eq!(lines(&body), vec![String::from("{\"a\":1}"), String::from("x")]);
    assert_eq!(lines("a\r\nb"), vec![String::from("a"), String::from("b")]);
    assert_eq!(lines("a\n\nb\r"), vec![String::from("a"), String::new(), String::from("b\r")]);
    assert!(lines("").is_empty());
}
