use oxidize::gtk::config::Mode;
use oxidize::apply::gtk_css::{
    changed_signal_args, current_gtk_css_path, emit_current, next_revision, revision_file,
    revision_text, theme_mode, user_css_links, EmitError,
};

#[test]
fn css_path_of_the_live_theme() {
    assert_eq!(current_gtk_css_path("/c/oxidize/themes/current"), "/c/oxidize/themes/current/gtk.css");
}

#[test]
fn user_links_for_both_versions() {
    let links = user_css_links("/cur", "/cfg");
    assert_eq!(links.len(), 2);
    assert_eq!(links[0].target, "/cur/gtk.css");
    assert_eq!(links[0].tmp, "/cfg/gtk-3.0/.gtk.css.oxidize.tmp");
    assert_eq!(links[0].dst, "/cfg/gtk-3.0/gtk.css");
    assert_eq!(links[1].dst, "/cfg/gtk-4.0/gtk.css");
}

#[test]
fn revisions_count_up() {
    assert_eq!(next_revision(None), 1);
    assert_eq!(next_revision(Some("41\n")), 42);
    assert_eq!(next_revision(Some("  7  ")), 8);
    assert_eq!(next_revision(Some("garbage")), 1);
    assert_eq!(next_revision(Some("-3")), 1);
    assert_eq!(next_revision(Some("18446744073709551615")), u64::MAX);
    assert_eq!(next_revision(Some("18446744073709551616")), 1);
}

#[test]
fn revision_round_trip() {
    for n in [0u64, 1, 9, 10, 12345, u64::MAX - 1] {
        assert_eq!(next_revision(Some(&revision_text(n))), n + 1);
    }
    assert_eq!(revision_text(42), "42\n");
    assert_eq!(next_revision(Some(&revision_text(u64::MAX))), u64::MAX);
}

#[test]
fn revision_file_location() {
    assert_eq!(revision_file("/cfg/oxidize"), ("/cfg/oxidize/runtime".to_owned(), "/cfg/oxidize/runtime/gtk-css.revision".to_owned()));
}

#[test]
fn signal_arguments() {
    assert_eq!(theme_mode(true), "light");
    assert_eq!(theme_mode(false), "dark");
    assert_eq!(
        changed_signal_args(3, "/a/gtk.css", "dark"),
        vec![
            "--session",
            "--type=signal",
            "/org/oxidize/Appearance1",
            "org.oxidize.Appearance1.Changed",
            "uint64:3",
            "string:/a/gtk.css",
            "string:dark",
        ]
    );
}

#[test]
fn emit_needs_the_stylesheet() {
    assert!(matches!(emit_current(true, "/a/gtk.css", false, Some("5")), Err(EmitError::CssMissing)));
    let e = emit_current(true, "/a/gtk.css", true, Some("5\n")).ok().unwrap();
    assert_eq!(e.revision, 6);
    assert_eq!(e.revision_text, "6\n");
    assert_eq!(e.args[4], "uint64:6");
    assert_eq!(e.args[6], "string:light");
}

#[test]
fn announced_mode_reads_back() {
    assert_eq!(Mode::parse(theme_mode(true)), Mode::Light);
    assert_eq!(Mode::parse(theme_mode(false)), Mode::Dark);
}
