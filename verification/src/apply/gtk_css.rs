//! Announcing a new stylesheet to running GTK applications.
use vstd::prelude::*;
use crate::gtk::config::{law_mode_name_round_trip, spec_mode_parse, Mode};
use crate::text::{
    from_chars, opt_str_view, parse_unsigned, path_join_str, push_decimal, push_str, spec_decimal,
    spec_parse_unsigned, spec_path_join, spec_trim, strings_view, to_chars, trim,
};

verus! {


/// The stylesheet of the live theme.
pub fn current_gtk_css_path(current_link: &str) -> (r: String)
    ensures
        r@ == spec_path_join(current_link@, "gtk.css"@),
{
    path_join_str(current_link, "gtk.css")
}

/// A symbolic link to re-create: point `tmp` at `target`, then rename it
/// over `dst`.
pub struct CssLink {
    pub target: String,
    pub tmp: String,
    pub dst: String,
}

/// The links that make GTK 3 and GTK 4 see the live stylesheet again, in
/// that order.
pub fn user_css_links(current_link: &str, config_home: &str) -> (r: Vec<CssLink>)
    ensures
        r@.len() == 2,
        forall|i: int| #![trigger r@[i]]
            0 <= i < 2 ==> {
                let dir = spec_path_join(
                    config_home@,
                    if i == 0 {
                        "gtk-3.0"@
                    } else {
                        "gtk-4.0"@
                    },
                );
                &&& r@[i].target@ == spec_path_join(current_link@, "gtk.css"@)
                &&& r@[i].dst@ == spec_path_join(dir, "gtk.css"@)
                &&& r@[i].tmp@ == spec_path_join(dir, ".gtk.css.oxidize.tmp"@)
            },
{
    let mut r: Vec<CssLink> = Vec::new();
    let d3 = path_join_str(config_home, "gtk-3.0");
    let d4 = path_join_str(config_home, "gtk-4.0");
    r.push(
        CssLink {
            target: path_join_str(current_link, "gtk.css"),
            tmp: path_join_str(d3.as_str(), ".gtk.css.oxidize.tmp"),
            dst: path_join_str(d3.as_str(), "gtk.css"),
        },
    );
    r.push(
        CssLink {
            target: path_join_str(current_link, "gtk.css"),
            tmp: path_join_str(d4.as_str(), ".gtk.css.oxidize.tmp"),
            dst: path_join_str(d4.as_str(), "gtk.css"),
        },
    );
    r
}

/// The mode a theme announces.
pub fn theme_mode(is_light: bool) -> (r: &'static str)
    ensures
        r@ == if is_light {
            "light"@
        } else {
            "dark"@
        },
{
    if is_light {
        "light"
    } else {
        "dark"
    }
}

/// The revision recorded in a revision file's text (`None` where it could
/// not be read): its trimmed decimal `u64`, else 0.
pub open spec fn spec_previous_revision(text: Option<Seq<char>>) -> nat {
    match text {
        Some(t) => match spec_parse_unsigned(spec_trim(t)) {
            Some(n) => if n <= u64::MAX {
                n
            } else {
                0
            },
            None => 0,
        },
        None => 0,
    }
}

/// The revision after the recorded one, stopping at `u64::MAX`.
pub open spec fn spec_next_revision(text: Option<Seq<char>>) -> u64 {
    if spec_previous_revision(text) < u64::MAX {
        (spec_previous_revision(text) + 1) as u64
    } else {
        u64::MAX
    }
}

/// The revision after the one recorded in the revision file's text.
pub fn next_revision(previous: Option<&str>) -> (r: u64)
    ensures
        r == spec_next_revision(opt_str_view(previous)),
{
    let prev: u64 = match previous {
        Some(t) => {
            let c = to_chars(t);
            let tr = trim(c.as_slice());
            match parse_unsigned(tr.as_slice(), u64::MAX) {
                Some(n) => n,
                None => 0,
            }
        },
        None => 0,
    };
    prev.saturating_add(1)
}

/// What the revision file records: the revision and a line feed.
pub open spec fn spec_revision_text(n: u64) -> Seq<char> {
    spec_decimal(n as nat) + "\n"@
}

pub fn revision_text(n: u64) -> (r: String)
    ensures
        r@ == spec_revision_text(n),
{
    let mut v: Vec<char> = Vec::new();
    push_decimal(&mut v, n);
    push_str(&mut v, "\n");
    from_chars(v.as_slice())
}

/// The revision file under the configuration directory.
pub fn revision_file(config_dir: &str) -> (r: (String, String))
    ensures
        r.0@ == spec_path_join(config_dir@, "runtime"@),
        r.1@ == spec_path_join(r.0@, "gtk-css.revision"@),
{
    let dir = path_join_str(config_dir, "runtime");
    let file = path_join_str(dir.as_str(), "gtk-css.revision");
    (dir, file)
}

pub open spec fn spec_signal_args(revision: u64, css_path: Seq<char>, mode: Seq<char>) -> Seq<Seq<char>> {
    seq![
        "--session"@,
        "--type=signal"@,
        "/org/oxidize/Appearance1"@,
        "org.oxidize.Appearance1.Changed"@,
        "uint64:"@ + spec_decimal(revision as nat),
        "string:"@ + css_path,
        "string:"@ + mode,
    ]
}

fn prefixed(prefix: &str, rest: &str) -> (r: String)
    ensures
        r@ == prefix@ + rest@,
{
    let mut v = to_chars(prefix);
    push_str(&mut v, rest);
    from_chars(v.as_slice())
}

/// The `dbus-send` arguments that announce revision `revision` of the
/// stylesheet at `css_path` in mode `mode`.
pub fn changed_signal_args(revision: u64, css_path: &str, mode: &str) -> (r: Vec<String>)
    ensures
        strings_view(r@) == spec_signal_args(revision, css_path@, mode@),
{
    let mut r: Vec<String> = Vec::new();
    r.push("--session".to_owned());
    r.push("--type=signal".to_owned());
    r.push("/org/oxidize/Appearance1".to_owned());
    r.push("org.oxidize.Appearance1.Changed".to_owned());
    let mut rev = to_chars("uint64:");
    push_decimal(&mut rev, revision);
    r.push(from_chars(rev.as_slice()));
    r.push(prefixed("string:", css_path));
    r.push(prefixed("string:", mode));
    assert(strings_view(r@) =~= spec_signal_args(revision, css_path@, mode@));
    r
}

/// Why the change cannot be announced.
#[derive(Clone, Copy, Debug, PartialEq, Eq)]
pub enum EmitError {
    /// The live stylesheet is not a regular file.
    CssMissing,
}

/// An announcement of the live stylesheet: the revision it carries, the
/// text to record in the revision file, and the `dbus-send` arguments.
pub struct Emit {
    pub revision: u64,
    pub revision_text: String,
    pub args: Vec<String>,
}

/// Announces the stylesheet at `css_path` (a regular file when
/// `css_is_file`) for a light or dark theme, under the revision after the
/// one recorded in `previous_revision` (the revision file's text, `None`
/// where it could not be read).
pub fn emit_current(is_light: bool, css_path: &str, css_is_file: bool, previous_revision: Option<&str>) -> (r: Result<Emit, EmitError>)
    ensures
        !css_is_file ==> r == Err::<Emit, EmitError>(EmitError::CssMissing),
        css_is_file ==> (r matches Ok(e) && {
            &&& e.revision == spec_next_revision(opt_str_view(previous_revision))
            &&& e.revision_text@ == spec_revision_text(e.revision)
            &&& strings_view(e.args@) == spec_signal_args(
                e.revision,
                css_path@,
                if is_light {
                    "light"@
                } else {
                    "dark"@
                },
            )
        }),
{
    if !css_is_file {
        return Err(EmitError::CssMissing);
    }
    let revision = next_revision(previous_revision);
    let mode = theme_mode(is_light);
    Ok(Emit { revision, revision_text: revision_text(revision), args: changed_signal_args(revision, css_path, mode) })
}

/// The revision a run records is read back by the next run, which records
/// the one after it (up to `u64::MAX`).
pub proof fn law_revision_round_trip(n: u64)
    ensures
        spec_next_revision(Some(spec_revision_text(n))) == if n < u64::MAX {
            (n + 1) as u64
        } else {
            u64::MAX
        },
{
    reveal_strlit("\n");
    let d = spec_decimal(n as nat);
    let t = d + "\n"@;
    crate::text::lemma_decimal_parses(n as nat);
    assert(t[0] == d[0]);
    assert(!crate::text::is_whitespace(d[0]));
    assert(crate::text::spec_trim_start(t, crate::text::CharClass::Whitespace) == t);
    assert(t.drop_last() =~= d);
    assert(!crate::text::is_whitespace(d.last()));
    assert(crate::text::spec_trim_end(d, crate::text::CharClass::Whitespace) == d);
    assert(crate::text::spec_trim_end(t, crate::text::CharClass::Whitespace) == d);
    assert(spec_trim(t) == d);
}

/// The mode announced for a theme is read back by the GTK module as that
/// theme's mode: light for a light theme, dark otherwise.
pub proof fn law_announced_mode_is_read_back(is_light: bool)
    ensures
        spec_mode_parse(
            if is_light {
                "light"@
            } else {
                "dark"@
            },
        ) == if is_light {
            Mode::Light
        } else {
            Mode::Dark
        },
{
    law_mode_name_round_trip(Mode::Light);
    law_mode_name_round_trip(Mode::Dark);
}

} // verus!
