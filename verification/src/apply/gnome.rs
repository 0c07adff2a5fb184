//! GNOME appearance settings for a theme.
use vstd::prelude::*;
use crate::text::pairs_view;
use crate::theme::Theme;

verus! {

/// The `org.gnome.desktop.interface` keys to set for a theme, in order:
/// the color scheme and GTK theme following its mode, then its icon theme
/// unless icons are skipped or it names none.
pub fn run(theme: &Theme, skip_icons: bool) -> (r: Vec<(String, String)>)
    ensures
        pairs_view(r@) == seq![
            ("color-scheme"@, if theme.is_light { "prefer-light"@ } else { "prefer-dark"@ }),
            ("gtk-theme"@, if theme.is_light { "adw-gtk3"@ } else { "adw-gtk3-dark"@ }),
        ] + match (skip_icons, theme.icon_theme) {
            (false, Some(icon)) => seq![("icon-theme"@, icon@)],
            _ => seq![],
        },
{
    let (color_scheme, gtk_theme) = if theme.is_light {
        ("prefer-light", "adw-gtk3")
    } else {
        ("prefer-dark", "adw-gtk3-dark")
    };
    let mut r: Vec<(String, String)> = Vec::new();
    r.push(("color-scheme".to_owned(), color_scheme.to_owned()));
    r.push(("gtk-theme".to_owned(), gtk_theme.to_owned()));
    if !skip_icons {
        if let Some(icon) = &theme.icon_theme {
            r.push(("icon-theme".to_owned(), icon.clone()));
        }
    }
    assert(pairs_view(r@) =~= seq![
        ("color-scheme"@, if theme.is_light { "prefer-light"@ } else { "prefer-dark"@ }),
        ("gtk-theme"@, if theme.is_light { "adw-gtk3"@ } else { "adw-gtk3-dark"@ }),
    ] + match (skip_icons, theme.icon_theme) {
        (false, Some(icon)) => seq![("icon-theme"@, icon@)],
        _ => seq![],
    });
    r
}

} // verus!
