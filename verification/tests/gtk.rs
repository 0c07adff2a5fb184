use oxidize::gtk::config::{
    config_home, css_path_loadable, css_priority, default_css_path, env_or, gtk3_theme_name,
    set_gtk3_theme_enabled, transition_ms, GtkApi, Mode, DEFAULT_TRANSITION_MS, MAX_TRANSITION_MS,
    PRIORITY_APPLICATION, PRIORITY_USER,
};
use oxidize::gtk::dbus::{handle_changed, unsubscribe};
use oxidize::gtk::module::{attach_or_retry, detected_gtk, retry_or_skip, AttachAction, ATTACH_RETRIES};
use oxidize::gtk::style::{
    attach, css_load_path, gtk3_mode_settings, plan_fade, plan_reload, tick_fade, update_path,
    AttachEvent, AttachStep, FadePlan, FadeProgress, FadeStart, InstantReason, ReloadStep,
    StyleState,
};

#[test]
fn mode_parse_is_trimmed_and_case_blind() {
    assert_eq!(Mode::parse("light"), Mode::Light);
    assert_eq!(Mode::parse("  DARK\n"), Mode::Dark);
    assert_eq!(Mode::parse("Dim"), Mode::Unknown);
    assert_eq!(Mode::parse(""), Mode::Unknown);
    assert!(Mode::Light.is_known());
    assert!(!Mode::Unknown.is_known());
    assert_eq!(Mode::Light.prefer_dark(), Some(false));
    assert_eq!(Mode::Dark.prefer_dark(), Some(true));
    assert_eq!(Mode::Unknown.prefer_dark(), None);
}

#[test]
fn mode_names_read_back() {
    for m in [Mode::Light, Mode::Dark, Mode::Unknown] {
        assert_eq!(Mode::parse(m.name()), m);
    }
    assert_eq!(Mode::Unknown.name(), "unknown");
}

#[test]
fn gtk_versions() {
    assert_eq!(GtkApi::from_major(3), Some(GtkApi::Gtk3));
    assert_eq!(GtkApi::from_major(4), Some(GtkApi::Gtk4));
    assert_eq!(GtkApi::from_major(2), None);
    assert_eq!(GtkApi::from_major(5), None);
    assert_eq!(GtkApi::Gtk3.major(), 3);
    assert_eq!(GtkApi::Gtk4.major(), 4);
    assert!(GtkApi::Gtk3.is_gtk3());
    assert!(!GtkApi::Gtk4.is_gtk3());
    assert_eq!(GtkApi::Gtk4.name(), "GTK4");
    assert_eq!(GtkApi::Gtk3.name(), "GTK3");
}

#[test]
fn priority_from_environment() {
    assert_eq!(css_priority(Some("application")), PRIORITY_APPLICATION);
    assert_eq!(css_priority(Some("user")), PRIORITY_USER);
    assert_eq!(css_priority(Some("Application")), PRIORITY_USER);
    assert_eq!(css_priority(None), PRIORITY_USER);
    assert_eq!(PRIORITY_APPLICATION, 600);
    assert_eq!(PRIORITY_USER, 800);
}

#[test]
fn transition_is_capped() {
    assert_eq!(transition_ms(None), DEFAULT_TRANSITION_MS);
    assert_eq!(transition_ms(Some("250")), 250);
    assert_eq!(transition_ms(Some("0")), 0);
    assert_eq!(transition_ms(Some("9000")), MAX_TRANSITION_MS);
    assert_eq!(transition_ms(Some("4294967295")), MAX_TRANSITION_MS);
    assert_eq!(transition_ms(Some("4294967296")), DEFAULT_TRANSITION_MS);
    assert_eq!(transition_ms(Some(" 250")), DEFAULT_TRANSITION_MS);
    assert_eq!(transition_ms(Some("+250")), 250);
    assert_eq!(transition_ms(Some("+")), DEFAULT_TRANSITION_MS);
    assert_eq!(transition_ms(Some("fast")), DEFAULT_TRANSITION_MS);
}

#[test]
fn gtk3_theme_switch() {
    assert!(set_gtk3_theme_enabled(None));
    assert!(set_gtk3_theme_enabled(Some("1")));
    assert!(!set_gtk3_theme_enabled(Some("0")));
    assert!(!set_gtk3_theme_enabled(Some(" Off ")));
    assert!(!set_gtk3_theme_enabled(Some("FALSE")));
    assert!(!set_gtk3_theme_enabled(Some("no")));
    assert!(set_gtk3_theme_enabled(Some("nope")));
}

#[test]
fn gtk3_theme_names() {
    assert_eq!(env_or(None, "d"), "d");
    assert_eq!(env_or(Some(""), "d"), "d");
    assert_eq!(env_or(Some("x"), "d"), "x");
    assert_eq!(gtk3_theme_name(Mode::Light, None, None).as_deref(), Some("adw-gtk3"));
    assert_eq!(gtk3_theme_name(Mode::Dark, None, None).as_deref(), Some("adw-gtk3-dark"));
    assert_eq!(gtk3_theme_name(Mode::Dark, Some("L"), Some("D")).as_deref(), Some("D"));
    assert_eq!(gtk3_theme_name(Mode::Light, Some("L"), Some("")).as_deref(), Some("L"));
    assert_eq!(gtk3_theme_name(Mode::Unknown, Some("L"), Some("D")), None);
}

#[test]
fn config_home_choice() {
    assert_eq!(config_home(Some("/home/a"), false, None), "/home/a/.config");
    assert_eq!(config_home(Some("/home/a"), false, Some("/x")), "/x");
    assert_eq!(config_home(Some("/home/a"), false, Some("")), "/home/a/.config");
    assert_eq!(config_home(Some("/home/a"), true, Some("/x")), "/home/a/.config");
    assert_eq!(config_home(None, false, None), ".config");
}

#[test]
fn css_path_choice() {
    assert!(css_path_loadable("/a", true));
    assert!(!css_path_loadable("", true));
    assert!(!css_path_loadable("/a", false));
    let h = "/home/a/.config";
    assert_eq!(default_css_path(h, GtkApi::Gtk4, true, true), "/home/a/.config/oxidize/themes/current/gtk.css");
    assert_eq!(default_css_path(h, GtkApi::Gtk4, false, true), "/home/a/.config/gtk-4.0/gtk.css");
    assert_eq!(default_css_path(h, GtkApi::Gtk3, false, true), "/home/a/.config/gtk-3.0/gtk.css");
    assert_eq!(default_css_path(h, GtkApi::Gtk3, false, false), "/home/a/.config/oxidize/themes/current/gtk.css");
}

#[test]
fn attach_retries_then_gives_up() {
    assert_eq!(detected_gtk(4), (4, Some(GtkApi::Gtk4)));
    assert_eq!(detected_gtk(7), (7, None));
    assert_eq!(attach_or_retry(Some((3, Some(GtkApi::Gtk3))), 0), AttachAction::Attach(GtkApi::Gtk3));
    assert_eq!(attach_or_retry(Some((5, None)), 0), AttachAction::Unsupported(5));
    assert_eq!(attach_or_retry(None, 0), AttachAction::Retry { next_attempt: 1, delay_ms: 100 });
    assert_eq!(retry_or_skip(ATTACH_RETRIES - 1), AttachAction::Retry { next_attempt: ATTACH_RETRIES, delay_ms: 100 });
    assert_eq!(retry_or_skip(ATTACH_RETRIES), AttachAction::GiveUp);
}

#[test]
fn retry_count_from_first_attempt() {
    let mut attempt = 0u32;
    let mut retries = 0u32;
    while let AttachAction::Retry { next_attempt, .. } = attach_or_retry(None, attempt) {
        attempt = next_attempt;
        retries += 1;
    }
    assert_eq!(retries, ATTACH_RETRIES);
}

#[test]
fn change_signal_parameters() {
    let c = handle_changed(Some((7, "/tmp/gtk.css", " Light "))).unwrap();
    assert_eq!(c.revision, 7);
    assert_eq!(c.css_path, "/tmp/gtk.css");
    assert_eq!(c.mode, Mode::Light);
    assert!(handle_changed(None).is_none());
}

#[test]
fn unsubscribe_takes_the_subscription() {
    let mut slot = Some(42u64);
    assert_eq!(unsubscribe(&mut slot), Some(42));
    assert_eq!(slot, None);
    assert_eq!(unsubscribe(&mut slot), None);
}

#[test]
fn update_path_follows_loadable_signal_paths() {
    let (s, t) = update_path(None, "/x.css", true);
    assert!(s.is_none() && t.is_none());
    let st = StyleState { path: "/old.css".to_owned(), gtk: GtkApi::Gtk4 };
    let (s, t) = update_path(Some(st), "/new.css", true);
    assert_eq!(s.unwrap().path, "/new.css");
    assert_eq!(t.unwrap().path, "/new.css");
    let st = StyleState { path: "/old.css".to_owned(), gtk: GtkApi::Gtk3 };
    let (s, t) = update_path(Some(st), "/missing.css", false);
    assert_eq!(s.unwrap().path, "/old.css");
    let t = t.unwrap();
    assert_eq!(t.path, "/old.css");
    assert_eq!(t.gtk, GtkApi::Gtk3);
    let st = StyleState { path: "/old.css".to_owned(), gtk: GtkApi::Gtk3 };
    let (s, _) = update_path(Some(st), "", true);
    assert_eq!(s.unwrap().path, "/old.css");
}

#[test]
fn reload_plan() {
    assert_eq!(plan_reload(0, false, true), ReloadStep::Instant(InstantReason::Instant));
    assert_eq!(plan_reload(500, true, true), ReloadStep::Instant(InstantReason::Instant));
    assert_eq!(plan_reload(500, false, false), ReloadStep::Instant(InstantReason::NoOpacitySymbol));
    assert_eq!(plan_reload(500, false, true), ReloadStep::CollectTargets);
    assert_eq!(plan_fade(500, 0, GtkApi::Gtk4), FadeStart::Instant(InstantReason::NoWindows));
    assert_eq!(plan_fade(500, 2, GtkApi::Gtk4), FadeStart::Fade(FadePlan { half_ms: 250, gtk3_mode_at_ms: None }));
    assert_eq!(plan_fade(500, 2, GtkApi::Gtk3), FadeStart::Fade(FadePlan { half_ms: 250, gtk3_mode_at_ms: Some(234) }));
    assert_eq!(plan_fade(1, 1, GtkApi::Gtk3), FadeStart::Fade(FadePlan { half_ms: 1, gtk3_mode_at_ms: Some(0) }));
}

#[test]
fn fade_swaps_once_and_ends() {
    let mut f = FadeProgress { half_ms: 250, midpoint_done: false };
    let mut swaps = 0;
    let mut done = false;
    for ms in [0u128, 16, 200, 250, 266, 400, 500] {
        let (next, action) = tick_fade(f, ms * 1_000_000);
        if action.swap_css {
            swaps += 1;
            assert_eq!(ms, 250);
        }
        done = action.done;
        f = next;
    }
    assert_eq!(swaps, 1);
    assert!(done);
    assert!(f.midpoint_done);
    let (_, a) = tick_fade(FadeProgress { half_ms: 250, midpoint_done: false }, 249_999_999);
    assert!(!a.swap_css && !a.done);
}

#[test]
fn gtk3_settings_for_modes() {
    let s = gtk3_mode_settings(Mode::Dark, true, Some("adw-gtk3-dark")).unwrap();
    assert_eq!(s.theme.as_deref(), Some("adw-gtk3-dark"));
    assert_eq!(s.prefer_dark, 1);
    let s = gtk3_mode_settings(Mode::Light, true, None).unwrap();
    assert_eq!(s.theme, None);
    assert_eq!(s.prefer_dark, 0);
    assert!(gtk3_mode_settings(Mode::Unknown, true, Some("x")).is_none());
    assert!(gtk3_mode_settings(Mode::Light, false, Some("x")).is_none());
    assert!(gtk3_mode_settings(Mode::Light, true, Some("a\0b")).is_none());
}

#[test]
fn attach_steps() {
    assert!(matches!(attach(AttachEvent::Begin { attached: true, symbols: true }), AttachStep::Stop));
    assert!(matches!(attach(AttachEvent::Begin { attached: false, symbols: false }), AttachStep::Stop));
    assert!(matches!(attach(AttachEvent::Begin { attached: false, symbols: true }), AttachStep::FindOwner));
    assert!(matches!(attach(AttachEvent::Owner { found: false }), AttachStep::WaitForDisplay));
    assert!(matches!(attach(AttachEvent::Owner { found: true }), AttachStep::NewProvider));
    assert!(matches!(attach(AttachEvent::Provider { created: false }), AttachStep::Stop));
    assert!(matches!(attach(AttachEvent::Provider { created: true }), AttachStep::AddProvider));
    assert!(matches!(attach(AttachEvent::Added { ok: false }), AttachStep::Stop));
    assert!(matches!(attach(AttachEvent::Added { ok: true }), AttachStep::ChooseCss));
    match attach(AttachEvent::Css { path: "/g.css".to_owned(), loadable: false }) {
        AttachStep::Finish { path, load } => {
            assert_eq!(path, "/g.css");
            assert!(!load);
        }
        _ => panic!("expected Finish"),
    }
}

#[test]
fn css_paths_for_the_loader() {
    assert_eq!(css_load_path("/a/gtk.css").as_deref(), Some("/a/gtk.css"));
    assert_eq!(css_load_path("/a\0b"), None);
}
