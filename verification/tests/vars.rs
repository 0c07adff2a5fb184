use oxidize::theme::vars::vars_from_document;
use oxidize::toml_doc::TomlValue;
use oxidize::text::to_chars;
use oxidize::theme::vars::{build_vars_from_colors, hex_to_rgb, insert_border_active};
use oxidize::varmap::VarMap;

#[test]
fn readme_color_variables() {
    let vars = build_vars_from_colors(
        "accent = \"#56949f\"\nforeground = \"#575279\"\nbackground = \"#faf4ed\"\n",
    )
    .ok()
    .unwrap();
    assert_eq!(vars.get_str("foreground").unwrap(), "#575279");
    assert_eq!(vars.get_str("foreground_strip").unwrap(), "575279");
    assert_eq!(vars.get_str("foreground_rgb").unwrap(), "87,82,121");
    assert_eq!(vars.get_str("accent_rgb").unwrap(), "86,148,159");
    assert_eq!(vars.len(), 9);
}

#[test]
fn flatten_nested_tables_and_scalars() {
    let src = "name = \"x\"\nn = -3\nf = 1.5\nt = true\narr = [1, 2]\n[wm]\nborder = \"#ff0000\"\n[wm.inner]\nsize = 2\n";
    let vars = build_vars_from_colors(src).ok().unwrap();
    assert_eq!(vars.get_str("name").unwrap(), "x");
    assert_eq!(vars.get_str("n").unwrap(), "-3");
    assert_eq!(vars.get_str("f").unwrap(), "1.5");
    assert_eq!(vars.get_str("t").unwrap(), "true");
    assert!(vars.get_str("arr").is_none());
    assert_eq!(vars.get_str("wm_border").unwrap(), "#ff0000");
    assert_eq!(vars.get_str("wm_border_rgb").unwrap(), "255,0,0");
    assert_eq!(vars.get_str("wm_inner_size").unwrap(), "2");
    assert!(vars.get_str("name_strip").is_none());
}

#[test]
fn short_hex_gets_strip_but_no_rgb() {
    let vars = build_vars_from_colors("c = \"##abc\"\n").ok().unwrap();
    assert_eq!(vars.get_str("c_strip").unwrap(), "abc");
    assert!(vars.get_str("c_rgb").is_none());
}

#[test]
fn invalid_toml_is_an_error() {
    assert!(build_vars_from_colors("a = ").is_err());
}

#[test]
fn border_active_variables() {
    let mut vars = VarMap::new();
    insert_border_active(&mut vars, "#ff8000");
    assert_eq!(vars.get_str("border_active").unwrap(), "#ff8000");
    assert_eq!(vars.get_str("border_active_strip").unwrap(), "ff8000");
    assert_eq!(vars.get_str("border_active_rgb").unwrap(), "255,128,0");
    let mut other = VarMap::new();
    insert_border_active(&mut other, "red");
    assert_eq!(other.get_str("border_active_strip").unwrap(), "red");
    assert!(other.get_str("border_active_rgb").is_none());
}

#[test]
fn hex_to_rgb_values() {
    let s = |t: &str| hex_to_rgb(&to_chars(t)).map(|v| v.into_iter().collect::<String>());
    assert_eq!(s("575279"), Some("87,82,121".to_string()));
    assert_eq!(s("0080FF"), Some("0,128,255".to_string()));
    assert_eq!(s("57527"), None);
    assert_eq!(s("gggggg"), None);
    assert_eq!(s("5752790"), None);
}

#[test]
fn rgb_of_hex_round_trip() {
    for (r, g, b) in [(0u8, 128u8, 255u8), (1, 2, 3), (255, 255, 255)] {
        let hex = format!("{:02x}{:02x}{:02x}", r, g, b);
        let out: String = hex_to_rgb(&to_chars(&hex)).unwrap().into_iter().collect();
        assert_eq!(out, format!("{},{},{}", r, g, b));
    }
}

#[test]
fn varmap_insert_replaces() {
    let mut m = VarMap::new();
    m.insert_str("a", "1");
    m.insert_str("b", "2");
    m.insert_str("a", "3");
    assert_eq!(m.len(), 2);
    assert_eq!(m.get_str("a").unwrap(), "3");
    let mut p = m.pairs();
    p.sort();
    assert_eq!(p, vec![("a".to_string(), "3".to_string()), ("b".to_string(), "2".to_string())]);
}

#[test]
fn variables_from_a_parsed_document() {
    let doc = TomlValue::Table(vec![
        ("bg".to_owned(), TomlValue::Str("#000102".to_owned())),
        ("ui".to_owned(), TomlValue::Table(vec![("size".to_owned(), TomlValue::Int(-4))])),
        ("on".to_owned(), TomlValue::Bool(false)),
        ("arr".to_owned(), TomlValue::Other),
    ]);
    let vars = vars_from_document(&doc);
    assert_eq!(vars.get_str("bg_rgb").unwrap(), "0,1,2");
    assert_eq!(vars.get_str("ui_size").unwrap(), "-4");
    assert_eq!(vars.get_str("on").unwrap(), "false");
    assert!(vars.get_str("arr").is_none());
    assert_eq!(vars.len(), 5);
}
