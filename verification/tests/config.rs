use waybar_unixtime::config::Config;

#[test]
fn defaults_are_seconds_and_fifty_entries() {
    let config = Config::default();
    assert_eq!(config.default_format, "seconds");
    assert_eq!(config.history_size, 50);
    assert!(config.customs.is_empty());
}
