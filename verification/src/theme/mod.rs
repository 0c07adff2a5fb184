pub mod border;
pub mod colors;
pub mod vars;

use vstd::prelude::*;
use crate::text::{
    from_chars, opt_str_view, opt_string_view, pairs_view, path_join_str, spec_path_join, spec_trim, to_chars,
    trim,
};
use crate::theme::border::{resolve_checked, resolve_defined, spec_resolve};
use crate::theme::vars::{
    build_vars_from_colors, insert_border_vars, spec_border_vars, spec_build_vars, VarsError,
};
use crate::varmap::VarMap;

verus! {

/// A theme ready to be rendered.
pub struct Theme {
    pub name: String,
    pub root: String,
    pub vars: VarMap,
    pub is_light: bool,
    pub icon_theme: Option<String>,
    pub backgrounds_dir: Option<String>,
}

/// The files of a theme.
pub struct ThemePaths {
    pub root: String,
    pub colors_file: String,
    pub light_mode: String,
    pub icons: String,
    pub backgrounds: String,
}

/// What the file system says of a theme's files.
pub struct ThemeProbe {
    /// The theme directory exists.
    pub root_is_dir: bool,
    /// colors.toml is a regular file.
    pub colors_is_file: bool,
    /// The text of colors.toml, or why it could not be read.
    pub colors_text: Result<String, String>,
    /// light.mode is a regular file.
    pub light_mode_is_file: bool,
    /// The text of icons.theme; `Ok(None)` where it does not exist, `Err`
    /// with the reason where it could not be read.
    pub icons_text: Result<Option<String>, String>,
    /// backgrounds/ is a directory.
    pub backgrounds_is_dir: bool,
    /// The text of hyprland.conf, `None` where it could not be read.
    pub hyprland_text: Option<String>,
    /// The text of niri-colors.kdl, `None` where it could not be read.
    pub niri_text: Option<String>,
    /// The text of mango.conf, `None` where it could not be read.
    pub mango_text: Option<String>,
}

/// Why a theme cannot be loaded.
pub enum ThemeError {
    /// The theme directory does not exist.
    NotFound { root: String },
    /// The theme has no colors.toml.
    MissingColors { name: String, file: String },
    /// colors.toml could not be read.
    ReadColors { name: String, file: String, reason: String },
    /// colors.toml is no TOML document.
    ParseColors { name: String },
    /// icons.theme could not be read.
    ReadIcons { file: String, reason: String },
    /// A border color in the theme's window manager configuration cannot be
    /// handled.
    BorderColor { name: String },
    /// No current theme is recorded.
    NotSet,
}

/// A load error by its texts.
pub enum LoadErrorView {
    NotFound(Seq<char>),
    MissingColors(Seq<char>, Seq<char>),
    ReadColors(Seq<char>, Seq<char>, Seq<char>),
    ParseColors(Seq<char>),
    ReadIcons(Seq<char>, Seq<char>),
    BorderColor(Seq<char>),
    NotSet,
}

impl ThemeError {
    pub open spec fn view_of(self) -> LoadErrorView {
        match self {
            ThemeError::NotFound { root } => LoadErrorView::NotFound(root@),
            ThemeError::MissingColors { name, file } => LoadErrorView::MissingColors(name@, file@),
            ThemeError::ReadColors { name, file, reason } => LoadErrorView::ReadColors(
                name@,
                file@,
                reason@,
            ),
            ThemeError::ParseColors { name } => LoadErrorView::ParseColors(name@),
            ThemeError::ReadIcons { file, reason } => LoadErrorView::ReadIcons(file@, reason@),
            ThemeError::BorderColor { name } => LoadErrorView::BorderColor(name@),
            ThemeError::NotSet => LoadErrorView::NotSet,
        }
    }
}

/// The first error loading a theme meets, in the order they are tested: the
/// directory, colors.toml being there, being read, being parsed, then
/// icons.theme being read, then the border colors being handled.
pub open spec fn spec_load_error(data_dir: Seq<char>, name: Seq<char>, probe: ThemeProbe) -> Option<
    LoadErrorView,
> {
    let root = spec_theme_root(data_dir, name);
    let colors_file = spec_path_join(root, "colors.toml"@);
    if !probe.root_is_dir {
        Some(LoadErrorView::NotFound(root))
    } else if !probe.colors_is_file {
        Some(LoadErrorView::MissingColors(name, colors_file))
    } else {
        match probe.colors_text {
            Err(reason) => Some(LoadErrorView::ReadColors(name, colors_file, reason@)),
            Ok(src) => if spec_build_vars(src@) is None {
                Some(LoadErrorView::ParseColors(name))
            } else {
                match probe.icons_text {
                    Err(reason) => Some(
                        LoadErrorView::ReadIcons(spec_path_join(root, "icons.theme"@), reason@),
                    ),
                    Ok(_) => if !resolve_defined(
                        opt_string_view(probe.hyprland_text),
                        opt_string_view(probe.niri_text),
                        opt_string_view(probe.mango_text),
                    ) {
                        Some(LoadErrorView::BorderColor(name))
                    } else {
                        None
                    },
                }
            },
        }
    }
}

pub open spec fn spec_theme_root(data_dir: Seq<char>, name: Seq<char>) -> Seq<char> {
    spec_path_join(data_dir, name)
}

/// The trimmed text of a file, unless it is empty or the file is missing.
pub open spec fn spec_read_trimmed(text: Option<Seq<char>>) -> Option<Seq<char>> {
    match text {
        Some(t) => if spec_trim(t).len() > 0 {
            Some(spec_trim(t))
        } else {
            None
        },
        None => None,
    }
}


/// The trimmed text of a file, unless it is empty or the file is missing.
pub fn read_trimmed(text: Option<&str>) -> (r: Option<String>)
    ensures
        opt_string_view(r) == spec_read_trimmed(opt_str_view(text)),
{
    match text {
        Some(t) => {
            let c = to_chars(t);
            let tr = trim(c.as_slice());
            if tr.len() > 0 {
                Some(from_chars(tr.as_slice()))
            } else {
                None
            }
        },
        None => None,
    }
}

/// The links that put a theme's assets into a staging directory, each as
/// (link target, link path): light.mode and icons.theme where they are
/// files, then the backgrounds directory where there is one.
pub open spec fn spec_stage_links(
    theme: &Theme,
    stage: Seq<char>,
    light_mode_is_file: bool,
    icons_is_file: bool,
) -> Seq<(Seq<char>, Seq<char>)> {
    (if light_mode_is_file {
        seq![(spec_path_join(theme.root@, "light.mode"@), spec_path_join(stage, "light.mode"@))]
    } else {
        seq![]
    }) + (if icons_is_file {
        seq![(spec_path_join(theme.root@, "icons.theme"@), spec_path_join(stage, "icons.theme"@))]
    } else {
        seq![]
    }) + match theme.backgrounds_dir {
        Some(bg) => seq![(bg@, spec_path_join(stage, "backgrounds"@))],
        None => seq![],
    }
}

/// The text of an optional string.
fn opt_as_str(o: &Option<String>) -> (r: Option<&str>)
    ensures
        opt_str_view(r) == opt_string_view(*o),
{
    match o {
        Some(s) => Some(s.as_str()),
        None => None,
    }
}

impl Theme {
    /// Where the files of theme `name` under `data_dir` lie.
    pub fn paths(data_dir: &str, name: &str) -> (p: ThemePaths)
        ensures
            p.root@ == spec_theme_root(data_dir@, name@),
            p.colors_file@ == spec_path_join(p.root@, "colors.toml"@),
            p.light_mode@ == spec_path_join(p.root@, "light.mode"@),
            p.icons@ == spec_path_join(p.root@, "icons.theme"@),
            p.backgrounds@ == spec_path_join(p.root@, "backgrounds"@),
    {
        let root = path_join_str(data_dir, name);
        let colors_file = path_join_str(root.as_str(), "colors.toml");
        let light_mode = path_join_str(root.as_str(), "light.mode");
        let icons = path_join_str(root.as_str(), "icons.theme");
        let backgrounds = path_join_str(root.as_str(), "backgrounds");
        ThemePaths { root, colors_file, light_mode, icons, backgrounds }
    }

    /// Loads theme `name` from `data_dir`, given what the file system says of
    /// its files: its directory and colors.toml must exist, colors.toml must
    /// read and parse, and the border colors of its window manager
    /// configurations must be ones that can be handled. Its variables are
    /// those of colors.toml with `border_active` and `border_inactive` (the
    /// window manager's border colors, else `accent` and `color8`) and their
    /// `_strip` and `_rgb` entries; the icon theme is the trimmed
    /// icons.theme, the mode light where light.mode exists.
    pub fn load(data_dir: &str, name: &str, probe: ThemeProbe) -> (r: Result<Theme, ThemeError>)
        ensures
            match r {
                Err(e) => spec_load_error(data_dir@, name@, probe) == Some(e.view_of()),
                Ok(t) => {
                    &&& spec_load_error(data_dir@, name@, probe) is None
                    &&& t.name@ == name@
                    &&& t.root@ == spec_theme_root(data_dir@, name@)
                    &&& probe.colors_text matches Ok(src)
                    &&& spec_build_vars(src@) matches Some(colors)
                    &&& t.vars.map() == spec_border_vars(
                        colors,
                        spec_resolve(
                            opt_string_view(probe.hyprland_text),
                            opt_string_view(probe.niri_text),
                            opt_string_view(probe.mango_text),
                        ),
                    )
                    &&& t.is_light == probe.light_mode_is_file
                    &&& probe.icons_text matches Ok(icons)
                    &&& opt_string_view(t.icon_theme) == spec_read_trimmed(opt_string_view(icons))
                    &&& opt_string_view(t.backgrounds_dir) == if probe.backgrounds_is_dir {
                        Some(spec_path_join(spec_theme_root(data_dir@, name@), "backgrounds"@))
                    } else {
                        None
                    }
                },
            },
    {
        let paths = Theme::paths(data_dir, name);
        if !probe.root_is_dir {
            return Err(ThemeError::NotFound { root: paths.root });
        }
        if !probe.colors_is_file {
            return Err(ThemeError::MissingColors { name: name.to_owned(), file: paths.colors_file });
        }
        let src = match probe.colors_text {
            Ok(s) => s,
            Err(reason) => {
                return Err(
                    ThemeError::ReadColors { name: name.to_owned(), file: paths.colors_file, reason },
                );
            },
        };
        let mut vars = match build_vars_from_colors(src.as_str()) {
            Ok(v) => v,
            Err(VarsError::Parse) => {
                return Err(ThemeError::ParseColors { name: name.to_owned() });
            },
        };
        let icon_theme = match probe.icons_text {
            Ok(Some(t)) => read_trimmed(Some(t.as_str())),
            Ok(None) => None,
            Err(reason) => {
                return Err(ThemeError::ReadIcons { file: paths.icons, reason });
            },
        };
        let border = match resolve_checked(
            opt_as_str(&probe.hyprland_text),
            opt_as_str(&probe.niri_text),
            opt_as_str(&probe.mango_text),
        ) {
            Some(b) => b,
            None => {
                return Err(ThemeError::BorderColor { name: name.to_owned() });
            },
        };
        insert_border_vars(&mut vars, &border);
        let backgrounds_dir = if probe.backgrounds_is_dir {
            Some(paths.backgrounds)
        } else {
            None
        };
        Ok(
            Theme {
                name: name.to_owned(),
                root: paths.root,
                vars,
                is_light: probe.light_mode_is_file,
                icon_theme,
                backgrounds_dir,
            },
        )
    }

    /// The links that put the theme's assets into a staging directory:
    /// light.mode and icons.theme where they are files
    /// (`light_mode_is_file`, `icons_is_file`), and the backgrounds
    /// directory; each as (link target, link path).
    pub fn stage(&self, stage: &str, light_mode_is_file: bool, icons_is_file: bool) -> (r: Vec<
        (String, String),
    >)
        ensures
            pairs_view(r@) == spec_stage_links(self, stage@, light_mode_is_file, icons_is_file),
    {
        let mut r: Vec<(String, String)> = Vec::new();
        if light_mode_is_file {
            r.push(
                (
                    path_join_str(self.root.as_str(), "light.mode"),
                    path_join_str(stage, "light.mode"),
                ),
            );
        }
        if icons_is_file {
            r.push(
                (
                    path_join_str(self.root.as_str(), "icons.theme"),
                    path_join_str(stage, "icons.theme"),
                ),
            );
        }
        if let Some(bg) = &self.backgrounds_dir {
            r.push((bg.clone(), path_join_str(stage, "backgrounds")));
        }
        assert(pairs_view(r@) =~= spec_stage_links(self, stage@, light_mode_is_file, icons_is_file));
        r
    }
}

/// The name recorded in current.theme (`None` where the file is missing),
/// trimmed; an error where it is empty.
pub fn current_theme_name(raw: Option<&str>) -> (r: Result<String, ThemeError>)
    ensures
        match r {
            Ok(n) => n@ == spec_trim(
                match raw {
                    Some(t) => t@,
                    None => seq![],
                },
            ) && n@.len() > 0,
            Err(e) => e is NotSet && spec_trim(
                match raw {
                    Some(t) => t@,
                    None => seq![],
                },
            ).len() == 0,
        },
{
    let c = match raw {
        Some(t) => to_chars(t),
        None => Vec::new(),
    };
    let t = trim(c.as_slice());
    if t.len() == 0 {
        Err(ThemeError::NotSet)
    } else {
        Ok(from_chars(t.as_slice()))
    }
}

} // verus!
