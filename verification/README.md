# oxidize

A theme switcher for Wayland desktops, with its decisions verified by Verus.
A theme is a directory with a `colors.toml`; oxidize turns it into template
variables, stages the theme's assets, publishes them atomically, and tells
running applications to reload.

## Layout

- `src/` — the verified library.
  - `text.rs` — character-level string operations with their meaning over `Seq<char>`.
  - `varmap.rs` — the template-variable map (distinct keys).
  - `toml_doc.rs`, `kdl_doc.rs` — the parts of TOML and KDL documents the library reads, parsed by the `toml` and `kdl` crates.
  - `theme/` — loading a theme, its variables (`vars.rs`), palette extraction from terminal configurations (`colors.rs`) and window-manager border colors (`border.rs`).
  - `apply/` — GNOME settings, reload actions from `bindings.kdl`, and the GTK stylesheet announcement.
  - `gtk/` — the decisions of the GTK module: settings, attaching, reloads and fades.
  - `install.rs` — theme names from repository URLs.
  - `commands.rs` — removal checks, update targets and the listing order.
- `app/` — the command-line program and the GIO module's glue: file system, processes, D-Bus and GTK calls.
- `tests/` — tests of the library on concrete values.

## Notes

- Template variables live in `VarMap`, a vector of entries whose keys are
  distinct, viewed as a `Map<Seq<char>, Seq<char>>`. With `String` keys,
  Verus accepts the calls of a `HashMap` but proves nothing of what they
  return, so lookups in one could not be tied to the contracts; the vector
  with a type invariant gives the same map with provable lookups.
- Loading a theme adds `border_active` and `border_inactive` (with `_strip`
  and `_rgb`) from the theme's Hyprland, Niri or Mango configuration, falling
  back to `accent` and `color8`.
- Not present: template rendering (`{{ name }}` substitution and the
  `user-templates/` > `data/<theme>/` > `templates/` precedence) and the
  wallpaper step and `wallpaper` command. `oxidize set` stages the theme's
  assets (light.mode, icons.theme, backgrounds) into the live tree; the
  `--skip-wallpaper` flag is accepted and has no step to skip.
- `app/gio_module` holds the glue of the GIO module that GTK applications
  load. It is built here as part of the command-line program; to be loaded
  by GTK it has to be built as a `cdylib` of its own.
