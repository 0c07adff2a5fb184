use oxidize::theme::colors::alacritty_palette;
use oxidize::toml_doc::TomlValue;
use oxidize::theme::colors::{generate, generate_checked, normalize_color, normalize_color_ok};

fn kitty_conf() -> String {
    let mut s = String::from("# kitty theme\n\nforeground #c0caf5\nbackground\t#1a1b26\n");
    s.push_str("cursor #c0caf5\nselection_foreground #c0caf5\nselection_background #33467c\n");
    for i in 0..16 {
        s.push_str(&format!("color{} #0000{:02x}\n", i, i));
    }
    s
}

fn expected_output() -> String {
    let mut s = String::from("accent = \"#000004\"\n");
    s.push_str("cursor = \"#c0caf5\"\nforeground = \"#c0caf5\"\nbackground = \"#1a1b26\"\n");
    s.push_str("selection_foreground = \"#c0caf5\"\nselection_background = \"#33467c\"\n\n");
    for i in 0..16 {
        s.push_str(&format!("color{} = \"#0000{:02x}\"\n", i, i));
    }
    s
}

#[test]
fn normalize_keeps_hash_colors() {
    assert_eq!(normalize_color("#abc"), "#abc");
    assert_eq!(normalize_color("\"#112233\""), "#112233");
    assert_eq!(normalize_color("'#aabbcc'"), "#aabbcc");
}

#[test]
fn normalize_rgba_drops_alpha() {
    assert_eq!(normalize_color("rgba(aabbccdd)"), "#aabbcc");
    assert_eq!(normalize_color("rgba( 11223344 )"), "#112233");
}

#[test]
fn normalize_rgb_keeps_inner_text() {
    assert_eq!(normalize_color("rgb(1,2,3)"), "1,2,3");
    assert_eq!(normalize_color("rgb( 10, 20 )"), "10, 20");
}

#[test]
fn normalize_bare_hex_gets_hash() {
    assert_eq!(normalize_color("112233"), "#112233");
    assert_eq!(normalize_color(""), "#");
    assert_eq!(normalize_color("rgba("), "#rgba(");
}

#[test]
fn normalize_short_rgba_is_refused() {
    assert!(!normalize_color_ok("rgba(abc)"));
    assert!(!normalize_color_ok("rgba(aabbc\u{e9})"));
    assert!(normalize_color_ok("rgba(aabbcc)"));
    assert!(normalize_color_ok("#x"));
}

#[test]
fn generate_from_kitty_conf() {
    let k = kitty_conf();
    assert_eq!(generate(Some(&k), None, None), Some(expected_output()));
}

#[test]
fn generate_prefers_kitty() {
    let k = kitty_conf();
    let g = "background = #ffffff\n";
    assert_eq!(generate(Some(&k), Some(g), None), Some(expected_output()));
}

#[test]
fn generate_from_ghostty_conf() {
    let mut g = String::from("# ghostty\nbackground = 1a1b26\nforeground = \"#c0caf5\"\n");
    g.push_str("selection-background = #33467c\nselection-foreground = #c0caf5\nunknown = 1\n");
    for i in 0..16 {
        g.push_str(&format!("palette = {}=#0000{:02x}\n", i, i));
    }
    let out = generate(None, Some(&g), None).unwrap();
    assert!(out.starts_with("accent = \"#000004\"\ncursor = \"#c0caf5\"\n"));
    assert!(out.contains("background = \"#1a1b26\"\n"));
    assert!(out.contains("color15 = \"#00000f\"\n"));
}

#[test]
fn generate_falls_through_incomplete_kitty() {
    let mut g = String::from("background = #000000\nforeground = #ffffff\ncursor-color = #ff0000\n");
    g.push_str("selection-background = #111111\nselection-foreground = #222222\n");
    for i in 0..16 {
        g.push_str(&format!("palette = {}=#0000{:02x}\n", i, i));
    }
    let out = generate(Some("foreground #fff\n"), Some(&g), None).unwrap();
    assert!(out.contains("cursor = \"#ff0000\"\n"));
}

#[test]
fn generate_from_alacritty_toml() {
    let mut a = String::from("[colors.primary]\nbackground = '#1a1b26'\nforeground = '0xc0caf5'\n");
    a.push_str("[colors.selection]\ntext = 'CellForeground'\n");
    let names = ["black", "red", "green", "yellow", "blue", "magenta", "cyan", "white"];
    a.push_str("[colors.normal]\n");
    for (i, n) in names.iter().enumerate() {
        a.push_str(&format!("{} = '#00000{}'\n", n, i));
    }
    a.push_str("[colors.bright]\n");
    for (i, n) in names.iter().enumerate() {
        a.push_str(&format!("{} = '#00001{}'\n", n, i));
    }
    let out = generate(None, None, Some(&a)).unwrap();
    assert!(out.starts_with("accent = \"#000004\"\ncursor = \"#0xc0caf5\"\n"));
    assert!(out.contains("selection_foreground = \"#CellForeground\"\n"));
    assert!(out.contains("selection_background = \"#1a1b26\"\n"));
    assert!(out.contains("color8 = \"#000010\"\n"));
}

#[test]
fn generate_nothing_without_palette() {
    assert_eq!(generate(None, None, None), None);
    assert_eq!(generate(Some("foreground #fff"), Some("x = 1"), Some("not toml [")), None);
    assert_eq!(generate(None, None, Some("[other]\na = 1\n")), None);
}

#[test]
fn generate_checked_reports_bad_colors() {
    assert!(generate_checked(None, Some("background = rgba(12)\n"), None).is_none());
    assert_eq!(generate_checked(None, Some("background = #123456\n"), None), Some(None));
}

#[test]
fn palette_from_a_parsed_alacritty_document() {
    let s = |k: &str, v: &str| (k.to_owned(), TomlValue::Str(v.to_owned()));
    let colors = TomlValue::Table(vec![
        ("primary".to_owned(), TomlValue::Table(vec![s("background", "0x101010"), s("foreground", "'#eeeeee'")])),
        ("normal".to_owned(), TomlValue::Table(vec![s("red", "#ff0000")])),
    ]);
    let doc = TomlValue::Table(vec![("colors".to_owned(), colors)]);
    let m = alacritty_palette(&doc).unwrap().unwrap();
    assert_eq!(m.get_str("background").unwrap(), "#0x101010");
    assert_eq!(m.get_str("cursor").unwrap(), "#eeeeee");
    assert_eq!(m.get_str("selection_foreground").unwrap(), "#eeeeee");
    assert_eq!(m.get_str("color1").unwrap(), "#ff0000");
    assert!(alacritty_palette(&TomlValue::Table(vec![])).unwrap().is_none());
}
