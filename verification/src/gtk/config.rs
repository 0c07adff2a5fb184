//! Settings of the GTK module: color mode, GTK version, and the values read
//! from the environment.
use vstd::prelude::*;
use crate::text::{
    ascii_lowercase, chars_eq_str, from_chars, opt_str_view, parse_unsigned, path_join_str, spec_ascii_lowercase,
    spec_parse_unsigned, spec_path_join, spec_trim, to_chars, trim,
};

verus! {

pub const PRIORITY_APPLICATION: u32 = 600;

pub const PRIORITY_USER: u32 = 800;

pub const DEFAULT_TRANSITION_MS: u32 = 500;

pub const MAX_TRANSITION_MS: u32 = 5000;

/// The color mode a theme announces.
#[derive(Clone, Copy, Debug, PartialEq, Eq)]
pub enum Mode {
    Light,
    Dark,
    Unknown,
}

/// The mode a text names, ignoring surrounding whitespace and ASCII case.
pub open spec fn spec_mode_parse(value: Seq<char>) -> Mode {
    let t = spec_ascii_lowercase(spec_trim(value));
    if t == "light"@ {
        Mode::Light
    } else if t == "dark"@ {
        Mode::Dark
    } else {
        Mode::Unknown
    }
}

pub open spec fn spec_prefer_dark(mode: Mode) -> Option<bool> {
    match mode {
        Mode::Light => Some(false),
        Mode::Dark => Some(true),
        Mode::Unknown => None,
    }
}

/// The name a mode is written as.
pub open spec fn spec_mode_name(mode: Mode) -> Seq<char> {
    match mode {
        Mode::Light => "light"@,
        Mode::Dark => "dark"@,
        Mode::Unknown => "unknown"@,
    }
}

impl Mode {
    pub fn parse(value: &str) -> (m: Mode)
        ensures
            m == spec_mode_parse(value@),
    {
        let v = to_chars(value);
        let t = trim(v.as_slice());
        let l = ascii_lowercase(t.as_slice());
        if chars_eq_str(l.as_slice(), "light") {
            Mode::Light
        } else if chars_eq_str(l.as_slice(), "dark") {
            Mode::Dark
        } else {
            Mode::Unknown
        }
    }

    pub fn is_known(self) -> (b: bool)
        ensures
            b == (self != Mode::Unknown),
    {
        !matches!(self, Mode::Unknown)
    }

    /// Whether the mode asks for dark widgets; none for an unknown mode.
    pub fn prefer_dark(self) -> (r: Option<bool>)
        ensures
            r == spec_prefer_dark(self),
    {
        match self {
            Mode::Light => Some(false),
            Mode::Dark => Some(true),
            Mode::Unknown => None,
        }
    }

    /// The name the mode is written as.
    pub fn name(self) -> (r: &'static str)
        ensures
            r@ == spec_mode_name(self),
    {
        match self {
            Mode::Light => "light",
            Mode::Dark => "dark",
            Mode::Unknown => "unknown",
        }
    }
}

/// The major GTK version of the host process.
#[derive(Clone, Copy, Debug, PartialEq, Eq)]
pub enum GtkApi {
    Gtk3,
    Gtk4,
}

pub open spec fn spec_from_major(version: u32) -> Option<GtkApi> {
    if version == 3 {
        Some(GtkApi::Gtk3)
    } else if version == 4 {
        Some(GtkApi::Gtk4)
    } else {
        None
    }
}

pub open spec fn spec_major(gtk: GtkApi) -> u32 {
    match gtk {
        GtkApi::Gtk3 => 3,
        GtkApi::Gtk4 => 4,
    }
}

impl GtkApi {
    pub fn from_major(version: u32) -> (r: Option<GtkApi>)
        ensures
            r == spec_from_major(version),
    {
        match version {
            3 => Some(GtkApi::Gtk3),
            4 => Some(GtkApi::Gtk4),
            _ => None,
        }
    }

    pub fn major(self) -> (v: u32)
        ensures
            v == spec_major(self),
    {
        match self {
            GtkApi::Gtk3 => 3,
            GtkApi::Gtk4 => 4,
        }
    }

    pub fn is_gtk3(self) -> (b: bool)
        ensures
            b == (self == GtkApi::Gtk3),
    {
        matches!(self, GtkApi::Gtk3)
    }

    /// `GTK3` or `GTK4`.
    pub fn name(self) -> (r: &'static str)
        ensures
            r@ == match self {
                GtkApi::Gtk3 => "GTK3"@,
                GtkApi::Gtk4 => "GTK4"@,
            },
    {
        match self {
            GtkApi::Gtk3 => "GTK3",
            GtkApi::Gtk4 => "GTK4",
        }
    }
}

pub open spec fn opt_str_eq(v: Option<&str>, s: Seq<char>) -> bool {
    match v {
        Some(x) => x@ == s,
        None => false,
    }
}

/// The CSS provider priority: `application` in `OXIDIZE_GTK_PRIORITY` (given
/// as `env`, `None` where unset or not Unicode) selects the application
/// priority, anything else the user priority.
pub fn css_priority(env: Option<&str>) -> (p: u32)
    ensures
        p == if opt_str_eq(env, "application"@) {
            PRIORITY_APPLICATION
        } else {
            PRIORITY_USER
        },
{
    match env {
        Some(v) => {
            let c = to_chars(v);
            if chars_eq_str(c.as_slice(), "application") {
                PRIORITY_APPLICATION
            } else {
                PRIORITY_USER
            }
        },
        None => PRIORITY_USER,
    }
}

/// The fade duration in milliseconds from `OXIDIZE_TRANSITION_MS`: a `u32`
/// capped at the maximum, else the default.
pub open spec fn spec_transition_ms(env: Option<Seq<char>>) -> u32 {
    match env {
        Some(v) => match spec_parse_unsigned(v) {
            Some(n) => if n <= u32::MAX {
                if n <= MAX_TRANSITION_MS {
                    n as u32
                } else {
                    MAX_TRANSITION_MS
                }
            } else {
                DEFAULT_TRANSITION_MS
            },
            None => DEFAULT_TRANSITION_MS,
        },
        None => DEFAULT_TRANSITION_MS,
    }
}


/// The fade duration in milliseconds from `OXIDIZE_TRANSITION_MS` (given as
/// `env`).
pub fn transition_ms(env: Option<&str>) -> (ms: u32)
    ensures
        ms == spec_transition_ms(opt_str_view(env)),
        ms <= MAX_TRANSITION_MS,
{
    match env {
        Some(v) => {
            let c = to_chars(v);
            match parse_unsigned(c.as_slice(), 0xffff_ffff) {
                Some(n) => if n <= MAX_TRANSITION_MS as u64 {
                    n as u32
                } else {
                    MAX_TRANSITION_MS
                },
                None => DEFAULT_TRANSITION_MS,
            }
        },
        None => DEFAULT_TRANSITION_MS,
    }
}

/// Whether the GTK3 theme follows the mode: only `0`, `false`, `no` and
/// `off` in `OXIDIZE_SET_GTK3_THEME` (trimmed, any ASCII case) turn it off.
pub open spec fn spec_set_gtk3_theme_enabled(env: Option<Seq<char>>) -> bool {
    let t = spec_ascii_lowercase(
        spec_trim(
            match env {
                Some(v) => v,
                None => seq![],
            },
        ),
    );
    !(t == "0"@ || t == "false"@ || t == "no"@ || t == "off"@)
}

/// Whether the GTK3 theme follows the mode, from `OXIDIZE_SET_GTK3_THEME`
/// (given as `env`).
pub fn set_gtk3_theme_enabled(env: Option<&str>) -> (b: bool)
    ensures
        b == spec_set_gtk3_theme_enabled(opt_str_view(env)),
{
    let c = match env {
        Some(v) => to_chars(v),
        None => Vec::new(),
    };
    let t = trim(c.as_slice());
    let l = ascii_lowercase(t.as_slice());
    !(chars_eq_str(l.as_slice(), "0") || chars_eq_str(l.as_slice(), "false") || chars_eq_str(
        l.as_slice(),
        "no",
    ) || chars_eq_str(l.as_slice(), "off"))
}

/// An environment value, or `default` where it is unset or empty.
pub open spec fn spec_env_or(value: Option<Seq<char>>, default: Seq<char>) -> Seq<char> {
    match value {
        Some(v) => if v.len() > 0 {
            v
        } else {
            default
        },
        None => default,
    }
}

pub fn env_or(value: Option<&str>, default: &str) -> (r: String)
    ensures
        r@ == spec_env_or(opt_str_view(value), default@),
{
    match value {
        Some(v) => {
            if v.is_empty() {
                default.to_owned()
            } else {
                v.to_owned()
            }
        },
        None => default.to_owned(),
    }
}

/// The GTK3 theme for a mode: `OXIDIZE_GTK3_LIGHT_THEME` or
/// `OXIDIZE_GTK3_DARK_THEME` (given as `light_env` and `dark_env`) with the
/// Adwaita defaults; none for an unknown mode.
pub fn gtk3_theme_name(mode: Mode, light_env: Option<&str>, dark_env: Option<&str>) -> (r: Option<
    String,
>)
    ensures
        match (mode, r) {
            (Mode::Light, Some(n)) => n@ == spec_env_or(opt_str_view(light_env), "adw-gtk3"@),
            (Mode::Dark, Some(n)) => n@ == spec_env_or(opt_str_view(dark_env), "adw-gtk3-dark"@),
            (Mode::Unknown, None) => true,
            _ => false,
        },
{
    match mode {
        Mode::Light => Some(env_or(light_env, "adw-gtk3")),
        Mode::Dark => Some(env_or(dark_env, "adw-gtk3-dark")),
        Mode::Unknown => None,
    }
}

/// The user configuration directory: `$HOME/.config` inside Flatpak,
/// otherwise a non-empty `XDG_CONFIG_HOME`, otherwise `$HOME/.config`
/// (`HOME` counting as empty where unset).
pub open spec fn spec_config_home(home: Option<Seq<char>>, in_flatpak: bool, xdg: Option<Seq<char>>) -> Seq<
    char,
> {
    let h = match home {
        Some(v) => v,
        None => seq![],
    };
    if in_flatpak {
        spec_path_join(h, ".config"@)
    } else {
        match xdg {
            Some(x) => if x.len() > 0 {
                x
            } else {
                spec_path_join(h, ".config"@)
            },
            None => spec_path_join(h, ".config"@),
        }
    }
}

pub fn config_home(home: Option<&str>, in_flatpak: bool, xdg: Option<&str>) -> (r: String)
    ensures
        r@ == spec_config_home(opt_str_view(home), in_flatpak, opt_str_view(xdg)),
{
    let h = match home {
        Some(v) => v,
        None => "",
    };
    proof {
        reveal_strlit("");
    }
    if !in_flatpak {
        if let Some(x) = xdg {
            if !x.is_empty() {
                return x.to_owned();
            }
        }
    }
    path_join_str(h, ".config")
}

/// The live theme's stylesheet under the configuration directory.
pub fn current_css_candidate(config_home: &str) -> (r: String)
    ensures
        r@ == spec_path_join(config_home@, "oxidize/themes/current/gtk.css"@),
{
    path_join_str(config_home, "oxidize/themes/current/gtk.css")
}

/// The stylesheet GTK itself reads for a GTK version.
pub fn legacy_css_candidate(config_home: &str, gtk: GtkApi) -> (r: String)
    ensures
        r@ == spec_path_join(
            config_home@,
            match gtk {
                GtkApi::Gtk3 => "gtk-3.0/gtk.css"@,
                GtkApi::Gtk4 => "gtk-4.0/gtk.css"@,
            },
        ),
{
    match gtk {
        GtkApi::Gtk3 => path_join_str(config_home, "gtk-3.0/gtk.css"),
        GtkApi::Gtk4 => path_join_str(config_home, "gtk-4.0/gtk.css"),
    }
}

/// Whether a stylesheet can be loaded: the path is non-empty and names a
/// regular file (`is_file`, what the file system says of it).
pub fn css_path_loadable(path: &str, is_file: bool) -> (b: bool)
    ensures
        b == (path@.len() > 0 && is_file),
{
    !path.is_empty() && is_file
}

/// The stylesheet to attach: the live theme's if loadable, else GTK's own
/// if loadable, else the live theme's.
pub fn default_css_path(config_home: &str, gtk: GtkApi, current_loadable: bool, legacy_loadable: bool) -> (r:
    String)
    ensures
        r@ == if !current_loadable && legacy_loadable {
            spec_path_join(
                config_home@,
                match gtk {
                    GtkApi::Gtk3 => "gtk-3.0/gtk.css"@,
                    GtkApi::Gtk4 => "gtk-4.0/gtk.css"@,
                },
            )
        } else {
            spec_path_join(config_home@, "oxidize/themes/current/gtk.css"@)
        },
{
    if !current_loadable && legacy_loadable {
        legacy_css_candidate(config_home, gtk)
    } else {
        current_css_candidate(config_home)
    }
}

proof fn lemma_plain_word(s: Seq<char>)
    requires
        s.len() > 0,
        forall|i: int| 0 <= i < s.len() ==> 'a' <= #[trigger] s[i] <= 'z',
    ensures
        spec_ascii_lowercase(spec_trim(s)) == s,
{
    assert(!crate::text::is_whitespace(s[0]));
    assert(!crate::text::is_whitespace(s.last()));
    assert(crate::text::spec_trim_start(s, crate::text::CharClass::Whitespace) == s);
    assert(crate::text::spec_trim_end(s, crate::text::CharClass::Whitespace) == s);
    assert(spec_ascii_lowercase(s) =~= s);
}

/// Reading the name a mode is written as gives the mode back.
pub proof fn law_mode_name_round_trip(m: Mode)
    ensures
        spec_mode_parse(spec_mode_name(m)) == m,
{
    reveal_strlit("light");
    reveal_strlit("dark");
    reveal_strlit("unknown");
    lemma_plain_word(spec_mode_name(m));
    assert("light"@.len() != "dark"@.len());
    assert("unknown"@.len() != "light"@.len());
    assert("unknown"@.len() != "dark"@.len());
}

/// A GTK version is found again from its major version number.
pub proof fn law_gtk_major_round_trip(gtk: GtkApi)
    ensures
        spec_from_major(spec_major(gtk)) == Some(gtk),
{
}

/// A mode prefers light or dark widgets exactly when it is known.
pub proof fn law_known_modes_choose_a_side(m: Mode)
    ensures
        (m != Mode::Unknown) == spec_prefer_dark(m) is Some,
{
}

} // verus!
