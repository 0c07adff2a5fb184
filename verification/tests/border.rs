use oxidize::theme::border::{resolve, resolve_checked, Wm};

#[test]
fn hyprland_variables_and_options() {
    let conf = "# $activeBorderColor = #000000\n$activeBorderColor = rgba(33ccffee)\ncol.inactive_border = $other\ncol.inactive_border = 595959\n";
    let b = Wm::Hyprland.parse_border(conf);
    assert_eq!(b.active.as_deref(), Some("#33ccff"));
    assert_eq!(b.inactive.as_deref(), Some("#595959"));
}

#[test]
fn niri_quoted_colors() {
    let conf = "layout {\n  focus-ring {\n    active-color \"#7fc8ff\"\n    inactive-color '#505050'\n  }\n}\n";
    let b = Wm::Niri.parse_border(conf);
    assert_eq!(b.active.as_deref(), Some("#7fc8ff"));
    assert_eq!(b.inactive.as_deref(), Some("#505050"));
}

#[test]
fn mango_drops_alpha() {
    let conf = "focuscolor=0xc9b890ff\nunfocuscolor = 0x444444\nunfocuscolor=0x444444ff\n";
    let b = Wm::Mango.parse_border(conf);
    assert_eq!(b.active.as_deref(), Some("#c9b890"));
    assert_eq!(b.inactive.as_deref(), Some("#444444"));
}

#[test]
fn filenames() {
    assert_eq!(Wm::Hyprland.filename(), "hyprland.conf");
    assert_eq!(Wm::Niri.filename(), "niri-colors.kdl");
    assert_eq!(Wm::Mango.filename(), "mango.conf");
}

#[test]
fn resolve_takes_first_config_with_colors() {
    let b = resolve(Some("nothing here\n"), Some("active-color \"#111111\"\n"), Some("focuscolor=0x22222222\n"));
    assert_eq!(b.active.as_deref(), Some("#111111"));
    assert_eq!(b.inactive, None);
    let b = resolve(None, None, Some("focuscolor=0x22222222\n"));
    assert_eq!(b.active.as_deref(), Some("#222222"));
    let b = resolve(None, None, None);
    assert!(b.is_empty());
}

#[test]
fn resolve_checked_refuses_bad_colors() {
    assert!(resolve_checked(Some("$activeBorderColor = rgba(12)\n"), None, None).is_none());
    assert!(resolve_checked(None, None, Some("focuscolor=0xabcde\u{e9}f\n")).is_none());
    assert!(resolve_checked(Some("$activeBorderColor = #123456\n"), None, None).is_some());
}
