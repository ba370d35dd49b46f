use waybar_unixtime::theme::{css, normalize, parse, Palette};

const SAMPLE: &str = r##"
accent = "#78824b"
foreground = "c2c2b0"
background = "#222222"
color0 = "#000000"
"##;

#[test]
fn parses_omarchy_colors_and_normalizes_missing_hash() {
    let palette = parse(SAMPLE).unwrap();
    assert_eq!(palette.accent, "#78824b");
    assert_eq!(palette.foreground, "#c2c2b0");
    assert_eq!(palette.background, "#222222");
}

#[test]
fn missing_keys_fall_back_to_defaults() {
    let palette = parse("accent = \"#111111\"").unwrap();
    assert_eq!(palette.accent, "#111111");
    assert_eq!(palette.foreground, Palette::default().foreground);
}

#[test]
fn invalid_toml_yields_none() {
    assert!(parse("not [ valid").is_none());
}

#[test]
fn css_uses_namespaced_define_colors() {
    let out = css(&Palette::default());
    assert!(out.contains("@define-color unixtime-accent #c9a554;"));
    assert!(out.contains("#custom-unixtime {"));
    assert!(out.contains("#custom-unixtime.millis,"));
}

#[test]
fn non_string_values_keep_the_default_and_whitespace_is_trimmed() {
    let palette = parse("accent = 5\nforeground = \"  abcdef  \"").unwrap();
    assert_eq!(palette.accent, Palette::default().accent);
    assert_eq!(palette.foreground, "#abcdef");
}

#[test]
fn css_places_every_palette_color() {
    let palette = Palette {
        accent: String::from("#ff00ff"),
        foreground: String::from("#eeeeee"),
        background: String::from("#101010"),
    };
    let out = css(&palette);
    assert!(out.contains("@define-color unixtime-accent #ff00ff;"));
    assert!(out.contains("@define-color unixtime-fg #eeeeee;"));
    assert!(out.contains("@define-color unixtime-bg #101010;"));
    assert!(out.contains("#custom-unixtime.micros"));
}

#[test]
fn css_reads_palette_from_omarchy_theme_dir() {
    let palette = parse(
        "accent = \"#ff00ff\"\nforeground = \"#eeeeee\"\n\
         background = \"#101010\"\n",
    )
    .unwrap();
    let out = css(&palette);
    assert!(out.contains("@define-color unixtime-accent #ff00ff;"));
    assert!(out.contains("#custom-unixtime.micros"));
}

#[test]
fn normalize_trims_adds_a_hash_and_settles() {
    assert_eq!(normalize("c2c2b0"), "#c2c2b0");
    assert_eq!(normalize("  #78824b \n"), "#78824b");
    assert_eq!(normalize(""), "#");
    for color in ["c2c2b0", " #abc ", "x y"] {
        let once = normalize(color);
        assert_eq!(normalize(&once), once);
    }
}
