use waybar_unixtime::convert::{offset, offset_checked, parse, OffsetError};
use waybar_unixtime::instant::UtcTime;

#[test]
fn parses_epoch_seconds_and_millis_by_length() {
    assert_eq!(parse("1785407677").unwrap().timestamp(), 1_785_407_677,);
    let ms = parse("1785407677500").unwrap();
    assert_eq!(ms.timestamp(), 1_785_407_677);
    assert_eq!(ms.timestamp_millis(), 1_785_407_677_500);
}

#[test]
fn parses_micros_and_nanos_by_length() {
    let us = parse("1785407677000001").unwrap();
    assert_eq!(us.timestamp_micros(), 1_785_407_677_000_001);
    let ns = parse("1785407677000000002").unwrap();
    assert_eq!(ns.timestamp(), 1_785_407_677);
}

#[test]
fn parses_iso_and_european_date_strings() {
    let iso = parse("2026-07-30 12:34:56").unwrap();
    let eu = parse("30.07.2026 12:34:56").unwrap();
    assert_eq!(iso, eu);
    assert!(parse("2026-07-30").is_some());
}

#[test]
fn parses_now_and_rejects_garbage() {
    assert!(parse("now").is_some());
    assert!(parse("yesterday-ish").is_none());
    assert!(parse("").is_none());
}

#[test]
fn offsets_add_and_subtract_compound_units() {
    let base = UtcTime::from_timestamp(1_000_000, 0).unwrap();
    assert_eq!(offset(&base, "+2h30m").unwrap().timestamp(), 1_000_000 + 9_000,);
    assert_eq!(offset(&base, "-1d").unwrap().timestamp(), 1_000_000 - 86_400,);
    assert!(offset(&base, "+2x").is_none());
    assert!(offset(&base, "+15").is_none());
}

#[test]
fn epoch_digits_pick_their_unit_at_the_boundaries() {
    let eleven = parse("99999999999").unwrap();
    assert_eq!(eleven.timestamp(), 99_999_999_999);
    let twelve = parse("100000000000").unwrap();
    assert_eq!(twelve.timestamp(), 100_000_000);
    let fifteen = parse("100000000000123").unwrap();
    assert_eq!(fifteen.timestamp(), 100_000_000);
    assert_eq!(fifteen.subsec_nanos(), 123_000);
    assert!(parse("99999999999999999999").is_none());
    assert_eq!(parse("  42  ").unwrap().timestamp(), 42);
    assert!(parse("NoW").is_some());
}

#[test]
fn offsets_take_every_unit_and_reject_malformed_input() {
    let base = UtcTime::from_timestamp(0, 0).unwrap();
    assert_eq!(offset(&base, "1w2d3h4m5s").unwrap().timestamp(), 604_800 + 172_800 + 10_800 + 240 + 5);
    assert_eq!(offset(&base, " -90s ").unwrap().timestamp(), -90);
    assert!(offset(&base, "").is_none());
    assert!(offset(&base, "+").unwrap().timestamp() == 0);
    assert!(offset(&base, "h").is_none());
    assert_eq!(
        offset_checked(&base, "+9999999999999999999w"),
        Ok(None)
    );
    assert_eq!(
        offset_checked(&base, "+999999999999999w"),
        Err(OffsetError::TooLarge)
    );
    assert_eq!(
        offset_checked(&base, "+9300000000000000s"),
        Err(OffsetError::TooLarge)
    );
}

#[test]
fn offsets_past_the_supported_years_give_none() {
    let base = UtcTime::from_timestamp(8_210_266_876_000, 0).unwrap();
    assert!(offset(&base, "+1w").is_none());
    assert!(offset(&base, "+10m").is_some());
}

#[test]
fn from_timestamp_follows_chrono() {
    assert!(UtcTime::from_timestamp(59, 1_500_000_000).is_some());
    assert!(UtcTime::from_timestamp(58, 1_500_000_000).is_none());
    assert!(UtcTime::from_timestamp(-1, 1_500_000_000).is_some());
    assert!(UtcTime::from_timestamp(8_210_266_876_800, 0).is_none());
    assert!(UtcTime::from_timestamp(-8_334_601_228_800, 0).is_some());
    assert!(UtcTime::from_timestamp(-8_334_601_228_801, 0).is_none());
    for secs in [-8_334_601_228_800i64, -1, 0, 59, 8_210_266_876_799] {
        let ours = UtcTime::from_timestamp(secs, 999_999_999).is_some();
        let theirs = chrono::DateTime::from_timestamp(secs, 999_999_999).is_some();
        assert_eq!((secs, ours), (secs, theirs));
    }
}

#[test]
fn minus_offsets_mirror_plus_offsets() {
    let base = UtcTime::from_timestamp(1_000_000, 0).unwrap();
    for body in ["2h30m", "1d", "45m ", "3w1s"] {
        let plus = offset(&base, &format!("+{body}")).unwrap().timestamp();
        let minus = offset(&base, &format!("-{body}")).unwrap().timestamp();
        assert_eq!(plus - 1_000_000, 1_000_000 - minus);
    }
    assert!(offset(&base, "+2x").is_none());
    assert!(offset(&base, "-2x").is_none());
}

#[test]
fn seventeen_digits_are_nanoseconds() {
    let sixteen = parse("1000000000000001").unwrap();
    assert_eq!(sixteen.timestamp(), 1_000_000_000);
    assert_eq!(sixteen.subsec_nanos(), 1_000);
    let seventeen = parse("17854076770000001").unwrap();
    assert_eq!(seventeen.timestamp(), 17_854_076);
    assert_eq!(seventeen.subsec_nanos(), 770_000_001);
}

#[test]
fn an_offset_and_its_negation_cancel() {
    let base = UtcTime::from_timestamp(1_785_407_677, 250).unwrap();
    for body in ["2h30m", "1d", "3w1s", "45m"] {
        let moved = offset(&base, &format!("+{body}")).unwrap();
        assert_eq!(offset(&base, body).unwrap(), moved);
        let back = offset(&moved, &format!("-{body}")).unwrap();
        assert_eq!(back, base);
    }
}
