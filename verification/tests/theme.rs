use oxidize::apply::gnome;
use oxidize::theme::{current_theme_name, read_trimmed, Theme, ThemeError, ThemeProbe};

fn probe(colors: &str) -> ThemeProbe {
    ThemeProbe {
        root_is_dir: true,
        colors_is_file: true,
        colors_text: Ok(colors.to_owned()),
        light_mode_is_file: false,
        icons_text: Ok(None),
        backgrounds_is_dir: false,
        hyprland_text: None,
        niri_text: None,
        mango_text: None,
    }
}

#[test]
fn load_a_dark_theme() {
    let t = Theme::load("/d", "nord", probe("accent = \"#88c0d0\"\n")).ok().unwrap();
    assert_eq!(t.name, "nord");
    assert_eq!(t.root, "/d/nord");
    assert!(!t.is_light);
    assert_eq!(t.icon_theme, None);
    assert_eq!(t.backgrounds_dir, None);
    assert_eq!(t.vars.get_str("accent_rgb").unwrap(), "136,192,208");
}

#[test]
fn load_a_light_theme_with_icons_and_backgrounds() {
    let mut p = probe("background = \"#ffffff\"\n");
    p.light_mode_is_file = true;
    p.icons_text = Ok(Some("  Papirus-Light \n".to_owned()));
    p.backgrounds_is_dir = true;
    let t = Theme::load("/d/", "day", p).ok().unwrap();
    assert!(t.is_light);
    assert_eq!(t.root, "/d/day");
    assert_eq!(t.icon_theme.as_deref(), Some("Papirus-Light"));
    assert_eq!(t.backgrounds_dir.as_deref(), Some("/d/day/backgrounds"));
    let links = t.stage("/s", true, true);
    assert_eq!(
        links,
        vec![
            ("/d/day/light.mode".to_owned(), "/s/light.mode".to_owned()),
            ("/d/day/icons.theme".to_owned(), "/s/icons.theme".to_owned()),
            ("/d/day/backgrounds".to_owned(), "/s/backgrounds".to_owned()),
        ]
    );
    assert_eq!(t.stage("/s", false, false).len(), 1);
}

#[test]
fn blank_icon_file_names_no_icon_theme() {
    let mut p = probe("a = \"#000000\"\n");
    p.icons_text = Ok(Some(" \n".to_owned()));
    let t = Theme::load("/d", "x", p).ok().unwrap();
    assert_eq!(t.icon_theme, None);
}

#[test]
fn load_errors_in_order() {
    let mut p = probe("a = \"#000000\"\n");
    p.root_is_dir = false;
    p.colors_is_file = false;
    assert!(matches!(Theme::load("/d", "x", p), Err(ThemeError::NotFound { root }) if root == "/d/x"));
    let mut p = probe("a = \"#000000\"\n");
    p.colors_is_file = false;
    assert!(matches!(Theme::load("/d", "x", p), Err(ThemeError::MissingColors { name, file }) if name == "x" && file == "/d/x/colors.toml"));
    let mut p = probe("");
    p.colors_text = Err("denied".to_owned());
    assert!(matches!(Theme::load("/d", "x", p), Err(ThemeError::ReadColors { reason, .. }) if reason == "denied"));
    let p = probe("a = ");
    assert!(matches!(Theme::load("/d", "x", p), Err(ThemeError::ParseColors { name }) if name == "x"));
    let mut p = probe("a = \"#000000\"\n");
    p.icons_text = Err("io".to_owned());
    assert!(matches!(Theme::load("/d", "x", p), Err(ThemeError::ReadIcons { file, .. }) if file == "/d/x/icons.theme"));
}

#[test]
fn paths_of_a_theme() {
    let p = Theme::paths("/d", "x");
    assert_eq!(p.colors_file, "/d/x/colors.toml");
    assert_eq!(p.light_mode, "/d/x/light.mode");
    assert_eq!(p.icons, "/d/x/icons.theme");
    assert_eq!(p.backgrounds, "/d/x/backgrounds");
}

#[test]
fn current_theme_file() {
    assert_eq!(current_theme_name(Some("nord\n")).ok().unwrap(), "nord");
    assert!(matches!(current_theme_name(Some("  \n")), Err(ThemeError::NotSet)));
    assert!(matches!(current_theme_name(None), Err(ThemeError::NotSet)));
    assert_eq!(read_trimmed(Some(" a b \n")).as_deref(), Some("a b"));
    assert_eq!(read_trimmed(Some("\t\n")), None);
    assert_eq!(read_trimmed(None), None);
}

#[test]
fn gnome_settings() {
    let mut p = probe("a = \"#000000\"\n");
    p.icons_text = Ok(Some("Papirus".to_owned()));
    let dark = Theme::load("/d", "x", p).ok().unwrap();
    let s = gnome::run(&dark, false);
    assert_eq!(
        s,
        vec![
            ("color-scheme".to_owned(), "prefer-dark".to_owned()),
            ("gtk-theme".to_owned(), "adw-gtk3-dark".to_owned()),
            ("icon-theme".to_owned(), "Papirus".to_owned()),
        ]
    );
    assert_eq!(gnome::run(&dark, true).len(), 2);
    let mut p = probe("a = \"#000000\"\n");
    p.light_mode_is_file = true;
    let light = Theme::load("/d", "y", p).ok().unwrap();
    assert_eq!(
        gnome::run(&light, false),
        vec![
            ("color-scheme".to_owned(), "prefer-light".to_owned()),
            ("gtk-theme".to_owned(), "adw-gtk3".to_owned()),
        ]
    );
}

#[test]
fn border_variables_fall_back_to_the_palette() {
    let t = Theme::load("/d", "x", probe("accent = \"#112233\"\ncolor8 = \"#445566\"\n")).ok().unwrap();
    assert_eq!(t.vars.get_str("border_active").unwrap(), "#112233");
    assert_eq!(t.vars.get_str("border_active_strip").unwrap(), "112233");
    assert_eq!(t.vars.get_str("border_active_rgb").unwrap(), "17,34,51");
    assert_eq!(t.vars.get_str("border_inactive").unwrap(), "#445566");
    assert_eq!(t.vars.get_str("border_inactive_rgb").unwrap(), "68,85,102");
}

#[test]
fn border_variables_from_the_window_manager() {
    let mut p = probe("accent = \"#112233\"\ncolor8 = \"#445566\"\n");
    p.hyprland_text = Some("$activeBorderColor = rgba(aabbccff)\n".to_owned());
    p.niri_text = Some("active-color \"#000000\"\ninactive-color \"#010101\"\n".to_owned());
    let t = Theme::load("/d", "x", p).ok().unwrap();
    assert_eq!(t.vars.get_str("border_active").unwrap(), "#aabbcc");
    assert_eq!(t.vars.get_str("border_active_rgb").unwrap(), "170,187,204");
    assert_eq!(t.vars.get_str("border_inactive").unwrap(), "#445566");
    let mut p = probe("a = \"#000000\"\n");
    p.niri_text = Some("active-color \"#0a0b0c\"\ninactive-color \"#010101\"\n".to_owned());
    let t = Theme::load("/d", "x", p).ok().unwrap();
    assert_eq!(t.vars.get_str("border_active").unwrap(), "#0a0b0c");
    assert_eq!(t.vars.get_str("border_inactive_strip").unwrap(), "010101");
}

#[test]
fn no_border_variables_without_colors() {
    let t = Theme::load("/d", "x", probe("a = \"#000000\"\n")).ok().unwrap();
    assert_eq!(t.vars.get_str("border_active"), None);
    assert_eq!(t.vars.get_str("border_inactive"), None);
}

#[test]
fn unreadable_border_color_is_an_error() {
    let mut p = probe("a = \"#000000\"\n");
    p.hyprland_text = Some("$activeBorderColor = rgba(12)\n".to_owned());
    assert!(matches!(Theme::load("/d", "x", p), Err(ThemeError::BorderColor { name }) if name == "x"));
}
