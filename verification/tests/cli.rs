use waybar_unixtime::cli::{wake, Wake};
use waybar_unixtime::cli::{interval_range, poll_sleep_ms, start_format, RunArgs};
use waybar_unixtime::clock::Format;

#[test]
fn interval_accepts_its_range_only() {
    assert_eq!(interval_range("250"), Ok(250));
    assert_eq!(interval_range("50"), Ok(50));
    assert_eq!(interval_range("3600000"), Ok(3_600_000));
    assert_eq!(interval_range("+1000"), Ok(1000));
    assert_eq!(
        interval_range("10"),
        Err(String::from("interval must be 50..=3600000 ms"))
    );
    assert_eq!(
        interval_range("3600001"),
        Err(String::from("interval must be 50..=3600000 ms"))
    );
    assert_eq!(interval_range("abc"), Err(String::from("not a number")));
    assert_eq!(interval_range(""), Err(String::from("not a number")));
    assert_eq!(interval_range("-5"), Err(String::from("not a number")));
    assert_eq!(
        interval_range("99999999999999999999"),
        Err(String::from("not a number"))
    );
}

#[test]
fn start_format_follows_the_millis_flag() {
    let args = RunArgs { millis: true, interval: 250 };
    assert_eq!(start_format(&args), Format::Millis);
    assert_eq!(start_format(&RunArgs::default()), Format::Seconds);
    assert_eq!(RunArgs::default().interval, 1000);
}

#[test]
fn sleeps_in_poll_steps() {
    assert_eq!(poll_sleep_ms(1000, 0), 100);
    assert_eq!(poll_sleep_ms(250, 200), 50);
}

#[test]
fn the_tick_loop_wakes_to_toggle_emit_or_sleep() {
    assert_eq!(wake(1000, 0, true), Wake::Toggle);
    assert_eq!(wake(1000, 0, false), Wake::Sleep(100));
    assert_eq!(wake(1000, 900, false), Wake::Emit);
    assert_eq!(wake(250, 200, false), Wake::Emit);
}
