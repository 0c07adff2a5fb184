pub mod gnome;
pub mod gtk_css;
pub mod reload;

use vstd::prelude::*;

verus! {

/// Which steps of applying a theme to skip.
#[derive(Debug, Clone, Copy, Default)]
pub struct ApplyFlags {
    pub skip_apply: bool,
    pub skip_gnome: bool,
    pub skip_icons: bool,
    pub skip_reload: bool,
    pub skip_wallpaper: bool,
}

} // verus!
