use waybar_unixtime::formats::specs;
use waybar_unixtime::menu::{snippet, xml};

#[test]
fn xml_contains_an_item_per_format() {
    let out = xml();
    for spec in specs() {
        assert!(
            out.contains(&format!("id=\"{}\"", spec.key)),
            "missing menu item {}",
            spec.key,
        );
    }
    assert!(out.contains("GtkMenu"));
    assert!(out.contains("GtkSeparatorMenuItem"));
}

#[test]
fn snippet_wires_every_menu_action() {
    let out = snippet("/usr/bin/waybar-unixtime");
    for spec in specs() {
        assert!(out.contains(&format!(
            "\"{key}\": \"/usr/bin/waybar-unixtime copy {key} \
             | wl-copy\"",
            key = spec.key,
        )));
    }
    assert!(out.contains("\"menu\": \"on-click\""));
    assert!(out.contains("\"interval\": 1"));
}

#[test]
fn xml_has_one_separator_between_the_two_groups() {
    let out = xml();
    assert_eq!(out.matches("GtkSeparatorMenuItem").count(), 1);
    assert!(out.starts_with("<?xml version=\"1.0\" encoding=\"UTF-8\"?>\n<interface>\n"));
    assert!(out.ends_with("  </object>\n</interface>\n"));
    assert!(out.contains("<property name=\"label\">copy Seconds</property>"));
}

#[test]
fn menu_xml_contains_every_format_item() {
    let out = xml();
    assert!(out.contains("GtkMenu"));
    assert!(out.contains("id=\"seconds\""));
    assert!(out.contains("id=\"rfc2822\""));
    assert!(out.contains("id=\"japanese\""));
}

#[test]
fn snippet_is_pasteable_waybar_config() {
    let out = snippet("/usr/bin/waybar-unixtime");
    assert!(out.contains("\"custom/unixtime\""));
    assert!(out.contains("\"menu-actions\""));
    assert!(out.contains("copy iso-utc | wl-copy"));
    assert!(out.contains("\"interval\": 1"));
}
