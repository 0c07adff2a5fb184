//! Window border colors from a theme's window manager configuration.
use vstd::prelude::*;
use crate::text::{
    in_class, is_ascii_hexdigit, is_ascii_whitespace, is_whitespace, lemma_chars_in_bytes_ascii,
    lemma_trim_start_prefix_in_class, lemma_utf8_len_ascii, spec_trim_end, starts_with,
    chars_in_bytes, count_chars_in_bytes, first_some, from_chars, lines, opt_str_view, opt_string_view, opt_view, push_chars,
    slice_of, spec_lines, spec_strip_prefix, spec_trim, spec_trim_matches, spec_trim_start,
    strip_prefix, to_chars, trim, trim_matches, trim_start, utf8_len, utf8_len_upto, views,
    CharClass,
};
use crate::theme::colors::{normalize_chars, normalize_color_defined, spec_normalize_color};

verus! {

/// The window managers whose configuration a theme may ship, in the order
/// they are tried.
#[derive(Clone, Copy, Debug, PartialEq, Eq)]
pub enum Wm {
    Hyprland,
    Niri,
    Mango,
}

/// The active and inactive border colors.
pub struct BorderColors {
    pub active: Option<String>,
    pub inactive: Option<String>,
}


impl BorderColors {
    pub open spec fn spec_is_empty(&self) -> bool {
        self.active is None && self.inactive is None
    }

    /// Neither color is set.
    pub fn is_empty(&self) -> (b: bool)
        ensures
            b == self.spec_is_empty(),
    {
        self.active.is_none() && self.inactive.is_none()
    }

    /// No color.
    pub fn empty() -> (b: BorderColors)
        ensures
            b.active is None,
            b.inactive is None,
    {
        BorderColors { active: None, inactive: None }
    }
}

// ---------------------------------------------------------------------------
// Hyprland
// ---------------------------------------------------------------------------

/// The value a Hyprland line assigns to the variable named by `p1` or else
/// `p2`, unless the line is a comment or the value refers to a variable.
pub open spec fn hypr_raw(line: Seq<char>, p1: Seq<char>, p2: Seq<char>) -> Option<Seq<char>> {
    let l = spec_trim(line);
    if l.len() > 0 && l[0] == '#' {
        None
    } else {
        let rest = match spec_strip_prefix(l, p1) {
            Some(r) => Some(r),
            None => spec_strip_prefix(l, p2),
        };
        match rest {
            Some(r) => {
                let val = spec_trim(spec_trim_start(r, CharClass::AsciiWhitespaceOrEquals));
                if val.len() > 0 && val[0] == '$' {
                    None
                } else {
                    Some(val)
                }
            },
            None => None,
        }
    }
}

pub open spec fn hypr_find(conf: Seq<char>, p1: Seq<char>, p2: Seq<char>) -> Option<Seq<char>> {
    first_some(spec_lines(conf), |l: Seq<char>| hypr_raw(l, p1, p2))
}

/// A found color, normalized.
pub open spec fn normalized(raw: Option<Seq<char>>) -> Option<Seq<char>> {
    match raw {
        Some(r) => Some(spec_normalize_color(r)),
        None => None,
    }
}

pub open spec fn normalizable(raw: Option<Seq<char>>) -> bool {
    match raw {
        Some(r) => normalize_color_defined(r),
        None => true,
    }
}

// ---------------------------------------------------------------------------
// Niri
// ---------------------------------------------------------------------------

/// The unquoted, non-empty color of a Niri line starting with `key`.
pub open spec fn niri_raw(line: Seq<char>, key: Seq<char>) -> Option<Seq<char>> {
    match spec_strip_prefix(spec_trim(line), key) {
        Some(r) => {
            let c = spec_trim_matches(
                spec_trim_matches(spec_trim(r), CharClass::Is('"')),
                CharClass::Is('\''),
            );
            if c.len() == 0 {
                None
            } else {
                Some(c)
            }
        },
        None => None,
    }
}

pub open spec fn niri_find(conf: Seq<char>, key: Seq<char>) -> Option<Seq<char>> {
    first_some(spec_lines(conf), |l: Seq<char>| niri_raw(l, key))
}

// ---------------------------------------------------------------------------
// Mango
// ---------------------------------------------------------------------------

/// The eight hex digits after `0x` on a Mango line starting with `key`
/// (eight bytes in UTF-8).
pub open spec fn mango_raw(line: Seq<char>, key: Seq<char>) -> Option<Seq<char>> {
    match spec_strip_prefix(spec_trim(line), key) {
        Some(r) => {
            let rest = spec_trim(spec_trim_start(r, CharClass::AsciiWhitespaceOrEquals));
            match spec_strip_prefix(rest, "0x"@) {
                Some(hex8) => if utf8_len(hex8) == 8 {
                    Some(hex8)
                } else {
                    None
                },
                None => None,
            }
        },
        None => None,
    }
}

pub open spec fn mango_find(conf: Seq<char>, key: Seq<char>) -> Option<Seq<char>> {
    first_some(spec_lines(conf), |l: Seq<char>| mango_raw(l, key))
}

/// `#` and the first six bytes of the hex digits (dropping the alpha).
pub open spec fn mango_color(raw: Option<Seq<char>>) -> Option<Seq<char>> {
    match raw {
        Some(h) => Some(seq!['#'] + h.take(chars_in_bytes(h, 6)->0 as int)),
        None => None,
    }
}

pub open spec fn mango_ok(raw: Option<Seq<char>>) -> bool {
    match raw {
        Some(h) => chars_in_bytes(h, 6) is Some,
        None => true,
    }
}

// ---------------------------------------------------------------------------
// Per window manager
// ---------------------------------------------------------------------------

/// The active border color a configuration sets.
pub open spec fn spec_active(wm: Wm, conf: Seq<char>) -> Option<Seq<char>> {
    match wm {
        Wm::Hyprland => normalized(hypr_find(conf, "$activeBorderColor"@, "col.active_border"@)),
        Wm::Niri => normalized(niri_find(conf, "active-color"@)),
        Wm::Mango => mango_color(mango_find(conf, "focuscolor"@)),
    }
}

/// The inactive border color a configuration sets.
pub open spec fn spec_inactive(wm: Wm, conf: Seq<char>) -> Option<Seq<char>> {
    match wm {
        Wm::Hyprland => normalized(
            hypr_find(conf, "$inactiveBorderColor"@, "col.inactive_border"@),
        ),
        Wm::Niri => normalized(niri_find(conf, "inactive-color"@)),
        Wm::Mango => mango_color(mango_find(conf, "unfocuscolor"@)),
    }
}

/// Whether reading a configuration returns: the colors it finds can be
/// normalized (Hyprland, Niri) or cut at six bytes (Mango).
pub open spec fn border_defined(wm: Wm, conf: Seq<char>) -> bool {
    match wm {
        Wm::Hyprland => normalizable(hypr_find(conf, "$activeBorderColor"@, "col.active_border"@))
            && normalizable(hypr_find(conf, "$inactiveBorderColor"@, "col.inactive_border"@)),
        Wm::Niri => normalizable(niri_find(conf, "active-color"@)) && normalizable(
            niri_find(conf, "inactive-color"@),
        ),
        Wm::Mango => mango_ok(mango_find(conf, "focuscolor"@)) && mango_ok(
            mango_find(conf, "unfocuscolor"@),
        ),
    }
}

fn hypr_raw_exec(line: &[char], p1: &str, p2: &str) -> (r: Option<Vec<char>>)
    ensures
        opt_view(r) == hypr_raw(line@, p1@, p2@),
{
    let l = trim(line);
    if l.len() > 0 && l[0] == '#' {
        return None;
    }
    let rest = match strip_prefix(l.as_slice(), p1) {
        Some(r) => Some(r),
        None => strip_prefix(l.as_slice(), p2),
    };
    match rest {
        Some(r) => {
            let a = trim_start(r.as_slice(), CharClass::AsciiWhitespaceOrEquals);
            let val = trim(a.as_slice());
            if val.len() > 0 && val[0] == '$' {
                None
            } else {
                Some(val)
            }
        },
        None => None,
    }
}

fn niri_raw_exec(line: &[char], key: &str) -> (r: Option<Vec<char>>)
    ensures
        opt_view(r) == niri_raw(line@, key@),
{
    let l = trim(line);
    match strip_prefix(l.as_slice(), key) {
        Some(r) => {
            let a = trim(r.as_slice());
            let b = trim_matches(a.as_slice(), CharClass::Is('"'));
            let c = trim_matches(b.as_slice(), CharClass::Is('\''));
            if c.len() == 0 {
                None
            } else {
                Some(c)
            }
        },
        None => None,
    }
}

fn mango_raw_exec(line: &[char], key: &str) -> (r: Option<Vec<char>>)
    ensures
        opt_view(r) == mango_raw(line@, key@),
{
    let l = trim(line);
    match strip_prefix(l.as_slice(), key) {
        Some(r) => {
            let a = trim_start(r.as_slice(), CharClass::AsciiWhitespaceOrEquals);
            let rest = trim(a.as_slice());
            match strip_prefix(rest.as_slice(), "0x") {
                Some(hex8) => match utf8_len_upto(hex8.as_slice(), 8) {
                    Some(n) => if n == 8 {
                        Some(hex8)
                    } else {
                        None
                    },
                    None => None,
                },
                None => None,
            }
        },
        None => None,
    }
}

/// Which per-line extraction a search uses.
enum LineRule {
    Hypr,
    Niri,
    Mango,
}

spec fn rule_raw(rule: LineRule, line: Seq<char>, p1: Seq<char>, p2: Seq<char>) -> Option<Seq<char>> {
    match rule {
        LineRule::Hypr => hypr_raw(line, p1, p2),
        LineRule::Niri => niri_raw(line, p1),
        LineRule::Mango => mango_raw(line, p1),
    }
}

/// The first value a line of `conf` yields under `rule`.
fn find_value(conf: &[char], rule: LineRule, p1: &str, p2: &str) -> (r: Option<Vec<char>>)
    ensures
        opt_view(r) == first_some(spec_lines(conf@), |l: Seq<char>| rule_raw(rule, l, p1@, p2@)),
{
    let ls = lines(conf);
    let ghost f = |l: Seq<char>| rule_raw(rule, l, p1@, p2@);
    let mut i: usize = 0;
    assert(views(ls@).skip(0) =~= views(ls@));
    while i < ls.len()
        invariant
            i <= ls.len(),
            f == (|l: Seq<char>| rule_raw(rule, l, p1@, p2@)),
            views(ls@) == spec_lines(conf@),
            first_some(views(ls@), f) == first_some(views(ls@).skip(i as int), f),
        decreases ls.len() - i,
    {
        let line = ls[i].as_slice();
        assert(views(ls@)[i as int] == ls@[i as int]@);
        assert(views(ls@).skip(i as int)[0] == views(ls@)[i as int]);
        let v = match rule {
            LineRule::Hypr => hypr_raw_exec(line, p1, p2),
            LineRule::Niri => niri_raw_exec(line, p1),
            LineRule::Mango => mango_raw_exec(line, p1),
        };
        assert(opt_view(v) == f(views(ls@)[i as int]));
        if v.is_some() {
            return v;
        }
        assert(views(ls@).skip(i as int).drop_first() =~= views(ls@).skip(i + 1));
        i += 1;
    }
    assert(views(ls@).skip(i as int) =~= Seq::<Seq<char>>::empty());
    None
}

/// A found color, normalized; `None` where it cannot be.
fn normalize_found(raw: Option<Vec<char>>) -> (r: Option<Option<String>>)
    ensures
        r is Some <==> normalizable(opt_view(raw)),
        r matches Some(o) ==> opt_string_view(o) == normalized(opt_view(raw)),
{
    match raw {
        Some(v) => match normalize_chars(v.as_slice()) {
            Some(n) => Some(Some(from_chars(n.as_slice()))),
            None => None,
        },
        None => Some(None),
    }
}

/// A found Mango color as `#rrggbb`; `None` where six bytes cut a character.
fn mango_found(raw: Option<Vec<char>>) -> (r: Option<Option<String>>)
    ensures
        r is Some <==> mango_ok(opt_view(raw)),
        r matches Some(o) ==> opt_string_view(o) == mango_color(opt_view(raw)),
{
    match raw {
        Some(h) => match count_chars_in_bytes(h.as_slice(), 6) {
            Some(k) => {
                let mut out: Vec<char> = Vec::new();
                out.push('#');
                let head = slice_of(h.as_slice(), 0, k);
                push_chars(&mut out, head.as_slice());
                assert(out@ =~= seq!['#'] + h@.take(k as int));
                Some(Some(from_chars(out.as_slice())))
            },
            None => None,
        },
        None => Some(None),
    }
}

impl Wm {
    /// The configuration file a theme ships for this window manager.
    pub fn filename(self) -> (r: &'static str)
        ensures
            r@ == match self {
                Wm::Hyprland => "hyprland.conf"@,
                Wm::Niri => "niri-colors.kdl"@,
                Wm::Mango => "mango.conf"@,
            },
    {
        match self {
            Wm::Hyprland => "hyprland.conf",
            Wm::Niri => "niri-colors.kdl",
            Wm::Mango => "mango.conf",
        }
    }

    /// The border colors a configuration sets; `None` where a color it
    /// finds cannot be normalized.
    pub fn parse_border_checked(self, conf: &str) -> (r: Option<BorderColors>)
        ensures
            r is Some <==> border_defined(self, conf@),
            r matches Some(b) ==> opt_string_view(b.active) == spec_active(self, conf@)
                && opt_string_view(b.inactive) == spec_inactive(self, conf@),
    {
        let c = to_chars(conf);
        proof {
            let ac = "$activeBorderColor"@;
            let aa = "col.active_border"@;
            let ic = "$inactiveBorderColor"@;
            let ia = "col.inactive_border"@;
            let e = ""@;
            assert((|l: Seq<char>| rule_raw(LineRule::Hypr, l, ac, aa)) =~= (|l: Seq<char>| hypr_raw(l, ac, aa)));
            assert((|l: Seq<char>| rule_raw(LineRule::Hypr, l, ic, ia)) =~= (|l: Seq<char>| hypr_raw(l, ic, ia)));
            assert((|l: Seq<char>| rule_raw(LineRule::Niri, l, "active-color"@, e)) =~= (|l: Seq<char>| niri_raw(l, "active-color"@)));
            assert((|l: Seq<char>| rule_raw(LineRule::Niri, l, "inactive-color"@, e)) =~= (|l: Seq<char>| niri_raw(l, "inactive-color"@)));
            assert((|l: Seq<char>| rule_raw(LineRule::Mango, l, "focuscolor"@, e)) =~= (|l: Seq<char>| mango_raw(l, "focuscolor"@)));
            assert((|l: Seq<char>| rule_raw(LineRule::Mango, l, "unfocuscolor"@, e)) =~= (|l: Seq<char>| mango_raw(l, "unfocuscolor"@)));
        }
        let (a, i) = match self {
            Wm::Hyprland => {
                let a = normalize_found(
                    find_value(c.as_slice(), LineRule::Hypr, "$activeBorderColor", "col.active_border"),
                );
                let i = normalize_found(
                    find_value(
                        c.as_slice(),
                        LineRule::Hypr,
                        "$inactiveBorderColor",
                        "col.inactive_border",
                    ),
                );
                (a, i)
            },
            Wm::Niri => {
                let a = normalize_found(find_value(c.as_slice(), LineRule::Niri, "active-color", ""));
                let i = normalize_found(
                    find_value(c.as_slice(), LineRule::Niri, "inactive-color", ""),
                );
                (a, i)
            },
            Wm::Mango => {
                let a = mango_found(find_value(c.as_slice(), LineRule::Mango, "focuscolor", ""));
                let i = mango_found(find_value(c.as_slice(), LineRule::Mango, "unfocuscolor", ""));
                (a, i)
            },
        };
        match (a, i) {
            (Some(active), Some(inactive)) => Some(BorderColors { active, inactive }),
            _ => None,
        }
    }

    /// The border colors a configuration sets.
    pub fn parse_border(self, conf: &str) -> (r: BorderColors)
        requires
            border_defined(self, conf@),
        ensures
            opt_string_view(r.active) == spec_active(self, conf@),
            opt_string_view(r.inactive) == spec_inactive(self, conf@),
    {
        match self.parse_border_checked(conf) {
            Some(b) => b,
            None => BorderColors::empty(),
        }
    }
}

/// The colors of one window manager's configuration (if it could be read),
/// unless it sets neither.
pub open spec fn try_wm(wm: Wm, conf: Option<Seq<char>>) -> Option<
    (Option<Seq<char>>, Option<Seq<char>>),
> {
    match conf {
        Some(c) => if spec_active(wm, c) is None && spec_inactive(wm, c) is None {
            None
        } else {
            Some((spec_active(wm, c), spec_inactive(wm, c)))
        },
        None => None,
    }
}

/// The border colors of a theme: those of the first of its Hyprland, Niri
/// and Mango configurations that sets one; none otherwise.
pub open spec fn spec_resolve(
    hyprland: Option<Seq<char>>,
    niri: Option<Seq<char>>,
    mango: Option<Seq<char>>,
) -> (Option<Seq<char>>, Option<Seq<char>>) {
    match try_wm(Wm::Hyprland, hyprland) {
        Some(c) => c,
        None => match try_wm(Wm::Niri, niri) {
            Some(c) => c,
            None => match try_wm(Wm::Mango, mango) {
                Some(c) => c,
                None => (None, None),
            },
        },
    }
}

/// Whether resolving returns: each configuration that is read finds only
/// colors it can handle.
pub open spec fn resolve_defined(
    hyprland: Option<Seq<char>>,
    niri: Option<Seq<char>>,
    mango: Option<Seq<char>>,
) -> bool {
    &&& (hyprland matches Some(c) ==> border_defined(Wm::Hyprland, c))
    &&& (try_wm(Wm::Hyprland, hyprland) is None ==> {
        &&& (niri matches Some(c) ==> border_defined(Wm::Niri, c))
        &&& (try_wm(Wm::Niri, niri) is None ==> (mango matches Some(c) ==> border_defined(
            Wm::Mango,
            c,
        )))
    })
}


/// The border colors of a theme from the contents of its hyprland.conf,
/// niri-colors.kdl and mango.conf (each `None` where it could not be read);
/// `None` where a color found cannot be handled.
pub fn resolve_checked(hyprland: Option<&str>, niri: Option<&str>, mango: Option<&str>) -> (r:
    Option<BorderColors>)
    ensures
        r is Some <==> resolve_defined(opt_str_view(hyprland), opt_str_view(niri), opt_str_view(mango)),
        r matches Some(b) ==> (opt_string_view(b.active), opt_string_view(b.inactive))
            == spec_resolve(opt_str_view(hyprland), opt_str_view(niri), opt_str_view(mango)),
{
    if let Some(c) = hyprland {
        match Wm::Hyprland.parse_border_checked(c) {
            Some(b) => if !b.is_empty() {
                return Some(b);
            },
            None => {
                return None;
            },
        }
    }
    if let Some(c) = niri {
        match Wm::Niri.parse_border_checked(c) {
            Some(b) => if !b.is_empty() {
                return Some(b);
            },
            None => {
                return None;
            },
        }
    }
    if let Some(c) = mango {
        match Wm::Mango.parse_border_checked(c) {
            Some(b) => if !b.is_empty() {
                return Some(b);
            },
            None => {
                return None;
            },
        }
    }
    Some(BorderColors::empty())
}

/// The border colors of a theme from the contents of its hyprland.conf,
/// niri-colors.kdl and mango.conf (each `None` where it could not be read).
pub fn resolve(hyprland: Option<&str>, niri: Option<&str>, mango: Option<&str>) -> (r: BorderColors)
    requires
        resolve_defined(opt_str_view(hyprland), opt_str_view(niri), opt_str_view(mango)),
    ensures
        (opt_string_view(r.active), opt_string_view(r.inactive)) == spec_resolve(
            opt_str_view(hyprland),
            opt_str_view(niri),
            opt_str_view(mango),
        ),
{
    match resolve_checked(hyprland, niri, mango) {
        Some(b) => b,
        None => BorderColors::empty(),
    }
}

/// A Mango color line is read whatever mix of ASCII whitespace and `=`
/// separates the key from `0x` and its eight hex digits: the digits are
/// found, and the color is `#` with the first six of them (the alpha
/// dropped).
pub proof fn law_mango_separator(key: Seq<char>, sep: Seq<char>, h: Seq<char>)
    requires
        key.len() > 0,
        !is_whitespace(key[0]),
        forall|i: int| 0 <= i < sep.len() ==> is_ascii_whitespace(#[trigger] sep[i]) || sep[i] == '=',
        h.len() == 8,
        forall|i: int| 0 <= i < 8 ==> is_ascii_hexdigit(#[trigger] h[i]),
    ensures
        mango_raw(key + sep + "0x"@ + h, key) == Some(h),
        mango_color(Some(h)) == Some(seq!['#'] + h.take(6)),
{
    reveal_strlit("0x");
    let tail = "0x"@ + h;
    let line = key + sep + tail;
    assert(line =~= key + (sep + tail));
    assert(key + sep + "0x"@ + h =~= line);
    assert(line[0] == key[0]);
    assert(spec_trim_start(line, CharClass::Whitespace) == line);
    assert(line.last() == h[7]);
    assert(!is_whitespace(h[7]));
    assert(spec_trim_end(line, CharClass::Whitespace) == line);
    assert(spec_trim(line) == line);
    assert(line.take(key.len() as int) =~= key);
    let r = line.skip(key.len() as int);
    assert(r =~= sep + tail);
    assert forall|i: int| 0 <= i < sep.len() implies in_class(
        #[trigger] sep[i],
        CharClass::AsciiWhitespaceOrEquals,
    ) by {}
    lemma_trim_start_prefix_in_class(sep, tail, CharClass::AsciiWhitespaceOrEquals);
    assert(tail[0] == '0');
    assert(spec_trim_start(tail, CharClass::AsciiWhitespaceOrEquals) == tail);
    assert(spec_trim_start(tail, CharClass::Whitespace) == tail);
    assert(tail.last() == h[7]);
    assert(spec_trim_end(tail, CharClass::Whitespace) == tail);
    assert(spec_trim(tail) == tail);
    assert(tail.take(2) =~= "0x"@);
    assert(tail.skip(2) =~= h);
    assert forall|i: int| 0 <= i < h.len() implies (#[trigger] h[i] as u32) < 0x80 by {}
    lemma_utf8_len_ascii(h);
    lemma_chars_in_bytes_ascii(h, 6);
    assert(starts_with(line, key));
    assert(spec_strip_prefix(spec_trim(line), key) == Some(r));
    assert(spec_trim_start(r, CharClass::AsciiWhitespaceOrEquals) == tail);
    assert(starts_with(tail, "0x"@));
    assert(spec_strip_prefix(tail, "0x"@) == Some(h));
    assert(utf8_len(h) == 8);
}

} // verus!
