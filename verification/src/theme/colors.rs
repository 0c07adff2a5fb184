//! Palette extraction from terminal configurations and color normalization.
use vstd::prelude::*;
use crate::text::{
    chars_eq_str, chars_in_bytes, count_chars_in_bytes, find_in_class, first_in_class, from_chars,
    lines, opt_str_view, opt_view, parse_unsigned, push_chars, push_decimal, push_str, slice_of, spec_decimal, spec_lines,
    spec_parse_unsigned, spec_split_once, spec_strip_prefix, spec_trim, spec_trim_matches,
    split_once, strip_prefix, to_chars, trim, trim_matches, views, CharClass,
};
use crate::toml_doc::{parse_toml, toml_as_str, toml_document, toml_get, TomlValue};
use crate::varmap::VarMap;

verus! {

/// `s` without surrounding double quotes, then without surrounding single
/// quotes.
pub open spec fn unquote(s: Seq<char>) -> Seq<char> {
    spec_trim_matches(spec_trim_matches(s, CharClass::Is('"')), CharClass::Is('\''))
}

/// `s` without a final `)`, if it has one.
pub open spec fn strip_close_paren(s: Seq<char>) -> Option<Seq<char>> {
    if s.len() > 0 && s.last() == ')' {
        Some(s.drop_last())
    } else {
        None
    }
}

/// What stands between `rgba(` and a final `)`.
pub open spec fn rgba_inner(t: Seq<char>) -> Option<Seq<char>> {
    match spec_strip_prefix(t, "rgba("@) {
        Some(r) => strip_close_paren(r),
        None => None,
    }
}

/// What stands between `rgb(` and a final `)`.
pub open spec fn rgb_inner(t: Seq<char>) -> Option<Seq<char>> {
    match spec_strip_prefix(t, "rgb("@) {
        Some(r) => strip_close_paren(r),
        None => None,
    }
}

/// Whether `normalize_color` returns on `s`: an `rgba(..)` value must have
/// a character boundary six bytes into its trimmed content.
pub open spec fn normalize_color_defined(s: Seq<char>) -> bool {
    let t = unquote(s);
    !(t.len() > 0 && t[0] == '#') && rgba_inner(t) is Some ==> chars_in_bytes(
        spec_trim(rgba_inner(t)->0),
        6,
    ) is Some
}

/// A color written as `#rrggbb`, `rgba(rrggbbaa)`, `rgb(..)` or bare hex,
/// possibly quoted, turned into the form the templates use.
pub open spec fn spec_normalize_color(s: Seq<char>) -> Seq<char> {
    let t = unquote(s);
    if t.len() > 0 && t[0] == '#' {
        t
    } else {
        match rgba_inner(t) {
            Some(inner) => {
                let it = spec_trim(inner);
                seq!['#'] + it.take(chars_in_bytes(it, 6)->0 as int)
            },
            None => match rgb_inner(t) {
                Some(inner) => spec_trim(inner),
                None => seq!['#'] + t,
            },
        }
    }
}

fn strip_close_paren_exec(s: &[char]) -> (r: Option<Vec<char>>)
    ensures
        r matches Some(v) ==> strip_close_paren(s@) == Some(v@),
        r is None ==> strip_close_paren(s@) is None,
{
    if s.len() > 0 && s[s.len() - 1] == ')' {
        Some(slice_of(s, 0, s.len() - 1))
    } else {
        None
    }
}

/// `normalize_color` on characters, or `None` where it is not defined.
pub fn normalize_chars(s: &[char]) -> (r: Option<Vec<char>>)
    ensures
        r is Some <==> normalize_color_defined(s@),
        r matches Some(v) ==> v@ == spec_normalize_color(s@),
{
    let a = trim_matches(s, CharClass::Is('"'));
    let t = trim_matches(a.as_slice(), CharClass::Is('\''));
    assert(t@ == unquote(s@));
    if t.len() > 0 && t[0] == '#' {
        return Some(t);
    }
    let rgba = match strip_prefix(t.as_slice(), "rgba(") {
        Some(r) => strip_close_paren_exec(r.as_slice()),
        None => None,
    };
    assert(rgba.is_some() == rgba_inner(t@).is_some());
    if let Some(inner) = rgba {
        assert(inner@ == rgba_inner(t@)->0);
        let it = trim(inner.as_slice());
        match count_chars_in_bytes(it.as_slice(), 6) {
            Some(k) => {
                let mut out: Vec<char> = Vec::new();
                out.push('#');
                let head = slice_of(it.as_slice(), 0, k);
                push_chars(&mut out, head.as_slice());
                assert(out@ =~= seq!['#'] + it@.take(k as int));
                return Some(out);
            },
            None => {
                return None;
            },
        }
    }
    let rgb = match strip_prefix(t.as_slice(), "rgb(") {
        Some(r) => strip_close_paren_exec(r.as_slice()),
        None => None,
    };
    assert(rgb.is_some() == rgb_inner(t@).is_some());
    if let Some(inner) = rgb {
        return Some(trim(inner.as_slice()));
    }
    let mut out: Vec<char> = Vec::new();
    out.push('#');
    push_chars(&mut out, t.as_slice());
    assert(out@ =~= seq!['#'] + t@);
    Some(out)
}

/// Whether `normalize_color` returns on `s`.
pub fn normalize_color_ok(s: &str) -> (b: bool)
    ensures
        b == normalize_color_defined(s@),
{
    let v = to_chars(s);
    normalize_chars(v.as_slice()).is_some()
}

/// Turns a color written as `#rrggbb`, `rgba(rrggbbaa)`, `rgb(..)` or bare
/// hex, possibly quoted, into the form the templates use.
pub fn normalize_color(s: &str) -> (r: String)
    requires
        normalize_color_defined(s@),
    ensures
        r@ == spec_normalize_color(s@),
{
    let v = to_chars(s);
    match normalize_chars(v.as_slice()) {
        Some(n) => from_chars(n.as_slice()),
        None => String::new(),
    }
}

// ---------------------------------------------------------------------------
// Maps built line by line
// ---------------------------------------------------------------------------

/// The map that inserting the pairs that `f` gives for each line, in order,
/// produces; a later pair replaces an earlier one with the same key.
pub open spec fn fold_pairs(
    lines: Seq<Seq<char>>,
    f: spec_fn(Seq<char>) -> Option<(Seq<char>, Seq<char>)>,
) -> Map<Seq<char>, Seq<char>>
    decreases lines.len(),
{
    if lines.len() == 0 {
        Map::empty()
    } else {
        let m = fold_pairs(lines.drop_last(), f);
        match f(lines.last()) {
            Some(p) => m.insert(p.0, p.1),
            None => m,
        }
    }
}

/// `m` with `key` set to the value of `source`, if `key` is unset and
/// `source` is set.
pub open spec fn spec_fallback(m: Map<Seq<char>, Seq<char>>, key: Seq<char>, source: Seq<char>) -> Map<
    Seq<char>,
    Seq<char>,
> {
    if !m.dom().contains(key) && m.dom().contains(source) {
        m.insert(key, m[source])
    } else {
        m
    }
}

/// The palette entry `color<n>`.
pub open spec fn color_key(n: nat) -> Seq<char> {
    "color"@ + spec_decimal(n)
}

fn color_key_exec(n: u64) -> (r: Vec<char>)
    ensures
        r@ == color_key(n as nat),
{
    let mut r: Vec<char> = Vec::new();
    push_str(&mut r, "color");
    push_decimal(&mut r, n);
    r
}

/// Sets `key` to the value of `source` if `key` is unset and `source` is set.
fn fallback(map: &mut VarMap, key: &str, source: &str)
    ensures
        final(map).map() == spec_fallback(old(map).map(), key@, source@),
{
    let k = to_chars(key);
    if !map.contains_key(k.as_slice()) {
        let s = to_chars(source);
        if let Some(val) = map.get(s.as_slice()) {
            map.insert(k, val);
        }
    }
}

// ---------------------------------------------------------------------------
// kitty.conf
// ---------------------------------------------------------------------------

/// A `key value` line of kitty.conf: the key runs up to the first ASCII
/// whitespace, the value is the trimmed rest.
pub open spec fn kitty_pair(line: Seq<char>) -> Option<(Seq<char>, Seq<char>)> {
    let l = spec_trim(line);
    if l.len() == 0 || l[0] == '#' {
        None
    } else {
        match first_in_class(l, CharClass::AsciiWhitespace) {
            Some(i) => Some((l.take(i), spec_trim(l.skip(i + 1)))),
            None => None,
        }
    }
}

/// The key/value pairs of kitty.conf.
pub open spec fn spec_parse_kitty(conf: Seq<char>) -> Map<Seq<char>, Seq<char>> {
    fold_pairs(spec_lines(conf), |l: Seq<char>| kitty_pair(l))
}

fn kitty_pair_exec(line: &[char]) -> (r: Option<(Vec<char>, Vec<char>)>)
    ensures
        r matches Some(p) ==> kitty_pair(line@) == Some((p.0@, p.1@)),
        r is None ==> kitty_pair(line@) is None,
{
    let l = trim(line);
    if l.len() == 0 || l[0] == '#' {
        return None;
    }
    match find_in_class(l.as_slice(), CharClass::AsciiWhitespace) {
        Some(i) => {
            let key = slice_of(l.as_slice(), 0, i);
            let rest = slice_of(l.as_slice(), i + 1, l.len());
            Some((key, trim(rest.as_slice())))
        },
        None => None,
    }
}

/// One step of `fold_pairs`.
proof fn lemma_fold_pairs_step(
    ls: Seq<Seq<char>>,
    i: int,
    f: spec_fn(Seq<char>) -> Option<(Seq<char>, Seq<char>)>,
)
    requires
        0 <= i < ls.len(),
    ensures
        fold_pairs(ls.take(i + 1), f) == match f(ls[i]) {
            Some(p) => fold_pairs(ls.take(i), f).insert(p.0, p.1),
            None => fold_pairs(ls.take(i), f),
        },
{
    assert(ls.take(i + 1).drop_last() =~= ls.take(i));
}

/// Reads the `key value` lines of kitty.conf.
fn parse_kitty(conf: &[char]) -> (m: VarMap)
    ensures
        m.map() == spec_parse_kitty(conf@),
{
    let ls = lines(conf);
    let ghost f = |l: Seq<char>| kitty_pair(l);
    let mut m = VarMap::new();
    let mut i: usize = 0;
    while i < ls.len()
        invariant
            i <= ls.len(),
            m.map() == fold_pairs(views(ls@).take(i as int), f),
            f == (|l: Seq<char>| kitty_pair(l)),
        decreases ls.len() - i,
    {
        proof {
            lemma_fold_pairs_step(views(ls@), i as int, f);
            assert(views(ls@)[i as int] == ls@[i as int]@);
        }
        let ghost before = m.map();
        match kitty_pair_exec(ls[i].as_slice()) {
            Some(p) => {
                m.insert(p.0, p.1);
                assert(f(views(ls@)[i as int]) == Some((p.0@, p.1@)));
                assert(m.map() == before.insert(p.0@, p.1@));
            },
            None => {
                assert(f(views(ls@)[i as int]) is None);
            },
        }
        assert(m.map() == fold_pairs(views(ls@).take(i + 1), f));
        i += 1;
    }
    assert(views(ls@).take(i as int) =~= views(ls@));
    m
}

// ---------------------------------------------------------------------------
// ghostty.conf
// ---------------------------------------------------------------------------

/// The template key of a ghostty setting.
pub open spec fn ghostty_canonical(key: Seq<char>) -> Option<Seq<char>> {
    if key == "background"@ {
        Some("background"@)
    } else if key == "foreground"@ {
        Some("foreground"@)
    } else if key == "cursor-color"@ {
        Some("cursor"@)
    } else if key == "selection-background"@ {
        Some("selection_background"@)
    } else if key == "selection-foreground"@ {
        Some("selection_foreground"@)
    } else {
        None
    }
}

/// The key and the color text, before normalization, that a ghostty line
/// sets: `palette = N=color` sets `color<N>` for an `N` that fits in a byte.
pub open spec fn ghostty_raw(line: Seq<char>) -> Option<(Seq<char>, Seq<char>)> {
    let l = spec_trim(line);
    if l.len() == 0 || l[0] == '#' {
        None
    } else {
        match spec_split_once(l, '=') {
            None => None,
            Some(kv) => {
                let key = spec_trim(kv.0);
                let val = spec_trim(kv.1);
                if key == "palette"@ {
                    match spec_split_once(val, '=') {
                        Some(ic) => match spec_parse_unsigned(spec_trim(ic.0)) {
                            Some(n) => if n <= 255 {
                                Some((color_key(n), spec_trim(ic.1)))
                            } else {
                                None
                            },
                            None => None,
                        },
                        None => None,
                    }
                } else {
                    match ghostty_canonical(key) {
                        Some(c) => Some((c, val)),
                        None => None,
                    }
                }
            },
        }
    }
}

pub open spec fn ghostty_pair(line: Seq<char>) -> Option<(Seq<char>, Seq<char>)> {
    match ghostty_raw(line) {
        Some(p) => Some((p.0, spec_normalize_color(p.1))),
        None => None,
    }
}

/// Whether reading ghostty.conf returns: every color it normalizes is
/// normalizable.
pub open spec fn ghostty_defined(conf: Seq<char>) -> bool {
    forall|i: int|
        0 <= i < spec_lines(conf).len() ==> match ghostty_raw(#[trigger] spec_lines(conf)[i]) {
            Some(p) => normalize_color_defined(p.1),
            None => true,
        }
}

/// The palette that ghostty.conf defines, the cursor defaulting to the
/// foreground.
pub open spec fn spec_parse_ghostty(conf: Seq<char>) -> Map<Seq<char>, Seq<char>> {
    spec_fallback(
        fold_pairs(spec_lines(conf), |l: Seq<char>| ghostty_pair(l)),
        "cursor"@,
        "foreground"@,
    )
}

fn ghostty_canonical_exec(key: &[char]) -> (r: Option<Vec<char>>)
    ensures
        r matches Some(v) ==> ghostty_canonical(key@) == Some(v@),
        r is None ==> ghostty_canonical(key@) is None,
{
    if chars_eq_str(key, "background") {
        Some(to_chars("background"))
    } else if chars_eq_str(key, "foreground") {
        Some(to_chars("foreground"))
    } else if chars_eq_str(key, "cursor-color") {
        Some(to_chars("cursor"))
    } else if chars_eq_str(key, "selection-background") {
        Some(to_chars("selection_background"))
    } else if chars_eq_str(key, "selection-foreground") {
        Some(to_chars("selection_foreground"))
    } else {
        None
    }
}

fn ghostty_raw_exec(line: &[char]) -> (r: Option<(Vec<char>, Vec<char>)>)
    ensures
        r matches Some(p) ==> ghostty_raw(line@) == Some((p.0@, p.1@)),
        r is None ==> ghostty_raw(line@) is None,
{
    let l = trim(line);
    if l.len() == 0 || l[0] == '#' {
        return None;
    }
    let (k0, v0) = match split_once(l.as_slice(), '=') {
        Some(kv) => kv,
        None => {
            return None;
        },
    };
    let key = trim(k0.as_slice());
    let val = trim(v0.as_slice());
    if chars_eq_str(key.as_slice(), "palette") {
        match split_once(val.as_slice(), '=') {
            Some((idx, color)) => {
                let it = trim(idx.as_slice());
                match parse_unsigned(it.as_slice(), 255) {
                    Some(n) => Some((color_key_exec(n), trim(color.as_slice()))),
                    None => None,
                }
            },
            None => None,
        }
    } else {
        match ghostty_canonical_exec(key.as_slice()) {
            Some(c) => Some((c, val)),
            None => None,
        }
    }
}

/// Reads the palette of ghostty.conf; `None` where a color cannot be
/// normalized.
fn parse_ghostty(conf: &[char]) -> (r: Option<VarMap>)
    ensures
        r is Some <==> ghostty_defined(conf@),
        r matches Some(m) ==> m.map() == spec_parse_ghostty(conf@),
{
    let ls = lines(conf);
    let ghost f = |l: Seq<char>| ghostty_pair(l);
    let mut m = VarMap::new();
    let mut i: usize = 0;
    while i < ls.len()
        invariant
            i <= ls.len(),
            views(ls@) == spec_lines(conf@),
            m.map() == fold_pairs(views(ls@).take(i as int), f),
            f == (|l: Seq<char>| ghostty_pair(l)),
            forall|j: int|
                0 <= j < i ==> match ghostty_raw(#[trigger] views(ls@)[j]) {
                    Some(p) => normalize_color_defined(p.1),
                    None => true,
                },
        decreases ls.len() - i,
    {
        proof {
            lemma_fold_pairs_step(views(ls@), i as int, f);
            assert(views(ls@)[i as int] == ls@[i as int]@);
        }
        match ghostty_raw_exec(ls[i].as_slice()) {
            Some(p) => {
                match normalize_chars(p.1.as_slice()) {
                    Some(c) => {
                        m.insert(p.0, c);
                    },
                    None => {
                        assert(!ghostty_defined(conf@)) by {
                            assert(views(ls@)[i as int] == ls@[i as int]@);
                        }
                        return None;
                    },
                }
            },
            None => {},
        }
        i += 1;
    }
    assert(views(ls@).take(i as int) =~= views(ls@));
    fallback(&mut m, "cursor", "foreground");
    Some(m)
}

// ---------------------------------------------------------------------------
// alacritty.toml
// ---------------------------------------------------------------------------

/// The string that `section.key` holds in the `colors` table, before
/// normalization.
pub open spec fn section_color(colors: TomlValue, section: Seq<char>, key: Seq<char>) -> Option<
    Seq<char>,
> {
    match toml_get(colors, section) {
        Some(sec) => match toml_get(sec, key) {
            Some(v) => toml_as_str(v),
            None => None,
        },
        None => None,
    }
}

/// `m` with `key` set to the normalized color, if there is one.
pub open spec fn ins_color(m: Map<Seq<char>, Seq<char>>, key: Seq<char>, raw: Option<Seq<char>>) -> Map<
    Seq<char>,
    Seq<char>,
> {
    match raw {
        Some(r) => m.insert(key, spec_normalize_color(r)),
        None => m,
    }
}

pub open spec fn color_defined(raw: Option<Seq<char>>) -> bool {
    match raw {
        Some(r) => normalize_color_defined(r),
        None => true,
    }
}

/// The name of ANSI color `i` in alacritty's `normal` and `bright` tables.
pub open spec fn ansi_name(i: nat) -> Seq<char> {
    if i == 0 {
        "black"@
    } else if i == 1 {
        "red"@
    } else if i == 2 {
        "green"@
    } else if i == 3 {
        "yellow"@
    } else if i == 4 {
        "blue"@
    } else if i == 5 {
        "magenta"@
    } else if i == 6 {
        "cyan"@
    } else {
        "white"@
    }
}

/// The selection foreground: `text`, else `foreground`.
pub open spec fn selection_fg(colors: TomlValue) -> Option<Seq<char>> {
    match section_color(colors, "selection"@, "text"@) {
        Some(t) => Some(t),
        None => section_color(colors, "selection"@, "foreground"@),
    }
}

/// The special colors of an alacritty `colors` table, with their fallbacks.
pub open spec fn alacritty_base(colors: TomlValue) -> Map<Seq<char>, Seq<char>> {
    let m1 = ins_color(
        Map::empty(),
        "background"@,
        section_color(colors, "primary"@, "background"@),
    );
    let m2 = ins_color(m1, "foreground"@, section_color(colors, "primary"@, "foreground"@));
    let m3 = spec_fallback(
        ins_color(m2, "cursor"@, section_color(colors, "cursor"@, "cursor"@)),
        "cursor"@,
        "foreground"@,
    );
    let m4 = ins_color(
        m3,
        "selection_background"@,
        section_color(colors, "selection"@, "background"@),
    );
    let m5 = ins_color(m4, "selection_foreground"@, selection_fg(colors));
    spec_fallback(
        spec_fallback(m5, "selection_background"@, "background"@),
        "selection_foreground"@,
        "foreground"@,
    )
}

/// `m` with the first `n` ANSI colors of `section` set as `color<offset+i>`.
pub open spec fn ansi_colors(
    m: Map<Seq<char>, Seq<char>>,
    colors: TomlValue,
    section: Seq<char>,
    offset: nat,
    n: nat,
) -> Map<Seq<char>, Seq<char>>
    decreases n,
{
    if n == 0 {
        m
    } else {
        let n1 = (n - 1) as nat;
        ins_color(
            ansi_colors(m, colors, section, offset, n1),
            color_key(offset + n1),
            section_color(colors, section, ansi_name(n1)),
        )
    }
}

/// The palette of an alacritty `colors` table.
pub open spec fn alacritty_map(colors: TomlValue) -> Map<Seq<char>, Seq<char>> {
    ansi_colors(
        ansi_colors(alacritty_base(colors), colors, "normal"@, 0, 8),
        colors,
        "bright"@,
        8,
        8,
    )
}

proof fn lemma_ansi_keeps(
    m: Map<Seq<char>, Seq<char>>,
    colors: TomlValue,
    section: Seq<char>,
    offset: nat,
    n: nat,
    key: Seq<char>,
)
    requires
        key.len() >= 2,
        key[1] != 'o',
    ensures
        ansi_colors(m, colors, section, offset, n).dom().contains(key) == m.dom().contains(key),
        m.dom().contains(key) ==> ansi_colors(m, colors, section, offset, n)[key] == m[key],
    decreases n,
{
    if n > 0 {
        let n1 = (n - 1) as nat;
        lemma_ansi_keeps(m, colors, section, offset, n1, key);
        reveal_strlit("color");
        assert(color_key(offset + n1)[1] == 'o');
    }
}

/// The cursor color of an alacritty palette is the `cursor` entry of the
/// `cursor` section, normalized, whatever else that section holds (its
/// `text` entry, the color drawn under the cursor, does not set it).
pub proof fn law_alacritty_cursor_color(colors: TomlValue, sec: TomlValue, cursor: String)
    requires
        toml_get(colors, "cursor"@) == Some(sec),
        toml_get(sec, "cursor"@) == Some(TomlValue::Str(cursor)),
    ensures
        alacritty_map(colors).dom().contains("cursor"@),
        alacritty_map(colors)["cursor"@] == spec_normalize_color(cursor@),
{
    reveal_strlit("cursor");
    reveal_strlit("selection_background");
    reveal_strlit("selection_foreground");
    let c = spec_normalize_color(cursor@);
    assert(section_color(colors, "cursor"@, "cursor"@) == Some(cursor@));
    let m1 = ins_color(
        Map::empty(),
        "background"@,
        section_color(colors, "primary"@, "background"@),
    );
    let m2 = ins_color(m1, "foreground"@, section_color(colors, "primary"@, "foreground"@));
    let m3a = ins_color(m2, "cursor"@, section_color(colors, "cursor"@, "cursor"@));
    assert(m3a.dom().contains("cursor"@) && m3a["cursor"@] == c);
    let m3 = spec_fallback(m3a, "cursor"@, "foreground"@);
    assert(m3 == m3a);
    assert("selection_background"@ != "cursor"@) by {
        assert("selection_background"@.len() != "cursor"@.len());
    }
    assert("selection_foreground"@ != "cursor"@) by {
        assert("selection_foreground"@.len() != "cursor"@.len());
    }
    let m4 = ins_color(
        m3,
        "selection_background"@,
        section_color(colors, "selection"@, "background"@),
    );
    let m5 = ins_color(m4, "selection_foreground"@, selection_fg(colors));
    assert(m5.dom().contains("cursor"@) && m5["cursor"@] == c);
    let m6 = spec_fallback(m5, "selection_background"@, "background"@);
    assert(m6.dom().contains("cursor"@) && m6["cursor"@] == c);
    let base = alacritty_base(colors);
    assert(base == spec_fallback(m6, "selection_foreground"@, "foreground"@));
    assert(base.dom().contains("cursor"@) && base["cursor"@] == c);
    let k = "cursor"@;
    assert(k[1] == 'u');
    lemma_ansi_keeps(base, colors, "normal"@, 0, 8, k);
    lemma_ansi_keeps(ansi_colors(base, colors, "normal"@, 0, 8), colors, "bright"@, 8, 8, k);
}

/// Whether every color that reading the table normalizes is normalizable.
pub open spec fn alacritty_defined(colors: TomlValue) -> bool {
    &&& color_defined(section_color(colors, "primary"@, "background"@))
    &&& color_defined(section_color(colors, "primary"@, "foreground"@))
    &&& color_defined(section_color(colors, "cursor"@, "cursor"@))
    &&& color_defined(section_color(colors, "selection"@, "background"@))
    &&& color_defined(selection_fg(colors))
    &&& forall|i: nat| i < 8 ==> color_defined(#[trigger] section_color(colors, "normal"@, ansi_name(i)))
    &&& forall|i: nat| i < 8 ==> color_defined(#[trigger] section_color(colors, "bright"@, ansi_name(i)))
}

/// The palette of alacritty.toml: none where the text is no TOML document
/// or has no `colors` entry.
pub open spec fn spec_parse_alacritty(conf: Seq<char>) -> Option<Map<Seq<char>, Seq<char>>> {
    match toml_document(conf) {
        Some(doc) => match toml_get(doc, "colors"@) {
            Some(colors) => Some(alacritty_map(colors)),
            None => None,
        },
        None => None,
    }
}

pub open spec fn alacritty_conf_defined(conf: Seq<char>) -> bool {
    match toml_document(conf) {
        Some(doc) => match toml_get(doc, "colors"@) {
            Some(colors) => alacritty_defined(colors),
            None => true,
        },
        None => true,
    }
}

fn section_color_exec(colors: &TomlValue, section: &str, key: &str) -> (r: Option<Vec<char>>)
    ensures
        r matches Some(v) ==> section_color(*colors, section@, key@) == Some(v@),
        r is None ==> section_color(*colors, section@, key@) is None,
{
    match colors.get(section) {
        Some(sec) => match sec.get(key) {
            Some(v) => match v.as_str() {
                Some(s) => Some(to_chars(s)),
                None => None,
            },
            None => None,
        },
        None => None,
    }
}

/// Sets `key` to the normalized color, if there is one; `false` where the
/// color cannot be normalized.
fn insert_color(m: &mut VarMap, key: &str, raw: Option<Vec<char>>) -> (ok: bool)
    ensures
        ok == color_defined(opt_view(raw)),
        ok ==> final(m).map() == ins_color(old(m).map(), key@, opt_view(raw)),
{
    match raw {
        Some(r) => match normalize_chars(r.as_slice()) {
            Some(c) => {
                m.insert(to_chars(key), c);
                true
            },
            None => false,
        },
        None => true,
    }
}

fn ansi_name_exec(i: usize) -> (r: &'static str)
    requires
        i < 8,
    ensures
        r@ == ansi_name(i as nat),
{
    if i == 0 {
        "black"
    } else if i == 1 {
        "red"
    } else if i == 2 {
        "green"
    } else if i == 3 {
        "yellow"
    } else if i == 4 {
        "blue"
    } else if i == 5 {
        "magenta"
    } else if i == 6 {
        "cyan"
    } else {
        "white"
    }
}

/// Sets the eight ANSI colors of `section` as `color<offset+i>`; `false`
/// where one cannot be normalized.
fn insert_ansi_colors(m: &mut VarMap, colors: &TomlValue, section: &str, offset: u64) -> (ok: bool)
    requires
        offset <= 8,
    ensures
        ok == forall|i: nat| i < 8 ==> color_defined(
            #[trigger] section_color(*colors, section@, ansi_name(i)),
        ),
        ok ==> final(m).map() == ansi_colors(old(m).map(), *colors, section@, offset as nat, 8),
{
    let mut i: usize = 0;
    while i < 8
        invariant
            i <= 8,
            offset <= 8,
            m.map() == ansi_colors(old(m).map(), *colors, section@, offset as nat, i as nat),
            forall|j: nat| j < i ==> color_defined(
                #[trigger] section_color(*colors, section@, ansi_name(j)),
            ),
        decreases 8 - i,
    {
        let name = ansi_name_exec(i);
        let raw = section_color_exec(colors, section, name);
        let key = color_key_exec(offset + i as u64);
        let k = from_chars(key.as_slice());
        if !insert_color(m, k.as_str(), raw) {
            return false;
        }
        i += 1;
    }
    true
}

/// Reads the palette of an alacritty `colors` table; `None` where a color
/// cannot be normalized.
pub fn alacritty_colors(colors: &TomlValue) -> (r: Option<VarMap>)
    ensures
        r is Some <==> alacritty_defined(*colors),
        r matches Some(m) ==> m.map() == alacritty_map(*colors),
{
    let mut m = VarMap::new();
    let ok1 = insert_color(&mut m, "background", section_color_exec(colors, "primary", "background"));
    if !ok1 {
        return None;
    }
    let ok2 = insert_color(&mut m, "foreground", section_color_exec(colors, "primary", "foreground"));
    if !ok2 {
        return None;
    }
    let ok3 = insert_color(&mut m, "cursor", section_color_exec(colors, "cursor", "cursor"));
    if !ok3 {
        return None;
    }
    fallback(&mut m, "cursor", "foreground");
    let ok4 = insert_color(
        &mut m,
        "selection_background",
        section_color_exec(colors, "selection", "background"),
    );
    if !ok4 {
        return None;
    }
    let sel_fg = match section_color_exec(colors, "selection", "text") {
        Some(t) => Some(t),
        None => section_color_exec(colors, "selection", "foreground"),
    };
    let ok5 = insert_color(&mut m, "selection_foreground", sel_fg);
    if !ok5 {
        return None;
    }
    fallback(&mut m, "selection_background", "background");
    fallback(&mut m, "selection_foreground", "foreground");
    assert(m.map() == alacritty_base(*colors));
    if !insert_ansi_colors(&mut m, colors, "normal", 0) {
        return None;
    }
    if !insert_ansi_colors(&mut m, colors, "bright", 8) {
        return None;
    }
    Some(m)
}

/// Reads the palette of alacritty.toml; the outer `None` where a color
/// cannot be normalized.
fn parse_alacritty(conf: &str) -> (r: Option<Option<VarMap>>)
    ensures
        r is Some <==> alacritty_conf_defined(conf@),
        r matches Some(o) ==> match (o, spec_parse_alacritty(conf@)) {
            (Some(m), Some(sm)) => m.map() == sm,
            (None, None) => true,
            _ => false,
        },
{
    let doc = match parse_toml(conf) {
        Some(d) => d,
        None => {
            return Some(None);
        },
    };
    alacritty_palette(&doc)
}

/// The palette of a parsed alacritty.toml: none where it has no `colors`
/// entry; the outer `None` where a color cannot be normalized.
pub fn alacritty_palette(doc: &TomlValue) -> (r: Option<Option<VarMap>>)
    ensures
        r is Some <==> (toml_get(*doc, "colors"@) matches Some(c) ==> alacritty_defined(c)),
        r matches Some(o) ==> match (o, toml_get(*doc, "colors"@)) {
            (Some(m), Some(c)) => m.map() == alacritty_map(c),
            (None, None) => true,
            _ => false,
        },
{
    let colors = match doc.get("colors") {
        Some(c) => c,
        None => {
            return Some(None);
        },
    };
    match alacritty_colors(colors) {
        Some(m) => Some(Some(m)),
        None => None,
    }
}

// ---------------------------------------------------------------------------
// colors.toml output
// ---------------------------------------------------------------------------

/// A `key = "value"` line.
pub open spec fn assign_line(key: Seq<char>, val: Seq<char>) -> Seq<char> {
    key + " = \""@ + val + "\"\n"@
}

/// Whether the palette has every entry that colors.toml needs.
pub open spec fn required_present(m: Map<Seq<char>, Seq<char>>) -> bool {
    &&& m.dom().contains("foreground"@)
    &&& m.dom().contains("background"@)
    &&& m.dom().contains("cursor"@)
    &&& m.dom().contains("selection_foreground"@)
    &&& m.dom().contains("selection_background"@)
    &&& forall|n: nat| n < 16 ==> m.dom().contains(#[trigger] color_key(n))
}

/// The lines for `color0` up to `color<n-1>`.
pub open spec fn palette_lines(m: Map<Seq<char>, Seq<char>>, n: nat) -> Seq<char>
    decreases n,
{
    if n == 0 {
        seq![]
    } else {
        let n1 = (n - 1) as nat;
        palette_lines(m, n1) + assign_line(color_key(n1), m[color_key(n1)])
    }
}

/// The colors.toml text for a palette: the accent (`color4`), the special
/// colors, a blank line and the sixteen ANSI colors; none if an entry is
/// missing.
pub open spec fn spec_build_output(m: Map<Seq<char>, Seq<char>>) -> Option<Seq<char>> {
    if required_present(m) {
        Some(
            assign_line("accent"@, m[color_key(4)]) + assign_line("cursor"@, m["cursor"@])
                + assign_line("foreground"@, m["foreground"@]) + assign_line(
                "background"@,
                m["background"@],
            ) + assign_line("selection_foreground"@, m["selection_foreground"@]) + assign_line(
                "selection_background"@,
                m["selection_background"@],
            ) + "\n"@ + palette_lines(m, 16),
        )
    } else {
        None
    }
}

fn push_assign(out: &mut Vec<char>, key: &[char], val: &[char])
    ensures
        final(out)@ == old(out)@ + assign_line(key@, val@),
{
    push_chars(out, key);
    push_str(out, " = \"");
    push_chars(out, val);
    push_str(out, "\"\n");
    assert(final(out)@ =~= old(out)@ + assign_line(key@, val@));
}

fn push_entry(out: &mut Vec<char>, map: &VarMap, key: &str)
    requires
        map.map().dom().contains(key@),
    ensures
        final(out)@ == old(out)@ + assign_line(key@, map.map()[key@]),
{
    let k = to_chars(key);
    match map.get(k.as_slice()) {
        Some(v) => push_assign(out, k.as_slice(), v.as_slice()),
        None => {},
    }
}

fn has_required(map: &VarMap) -> (b: bool)
    ensures
        b == required_present(map.map()),
{
    let k1 = to_chars("foreground");
    let k2 = to_chars("background");
    let k3 = to_chars("cursor");
    let k4 = to_chars("selection_foreground");
    let k5 = to_chars("selection_background");
    if !(map.contains_key(k1.as_slice()) && map.contains_key(k2.as_slice()) && map.contains_key(
        k3.as_slice(),
    ) && map.contains_key(k4.as_slice()) && map.contains_key(k5.as_slice())) {
        return false;
    }
    let mut n: u64 = 0;
    while n < 16
        invariant
            n <= 16,
            forall|j: nat| j < n ==> map.map().dom().contains(#[trigger] color_key(j)),
        decreases 16 - n,
    {
        let k = color_key_exec(n);
        if !map.contains_key(k.as_slice()) {
            return false;
        }
        n += 1;
    }
    true
}

/// The colors.toml text for a palette, if it has every entry needed.
fn build_output(map: &VarMap) -> (r: Option<Vec<char>>)
    ensures
        opt_view(r) == spec_build_output(map.map()),
{
    if !has_required(map) {
        return None;
    }
    let mut out: Vec<char> = Vec::new();
    let accent = to_chars("accent");
    let c4 = color_key_exec(4);
    assert(map.map().dom().contains(color_key(4)));
    match map.get(c4.as_slice()) {
        Some(v) => push_assign(&mut out, accent.as_slice(), v.as_slice()),
        None => {},
    }
    push_entry(&mut out, map, "cursor");
    push_entry(&mut out, map, "foreground");
    push_entry(&mut out, map, "background");
    push_entry(&mut out, map, "selection_foreground");
    push_entry(&mut out, map, "selection_background");
    push_str(&mut out, "\n");
    let ghost head = out@;
    let mut n: u64 = 0;
    while n < 16
        invariant
            n <= 16,
            required_present(map.map()),
            out@ == head + palette_lines(map.map(), n as nat),
        decreases 16 - n,
    {
        let k = color_key_exec(n);
        assert(map.map().dom().contains(color_key(n as nat)));
        match map.get(k.as_slice()) {
            Some(v) => push_assign(&mut out, k.as_slice(), v.as_slice()),
            None => {},
        }
        assert(out@ =~= head + palette_lines(map.map(), (n + 1) as nat));
        n += 1;
    }
    Some(out)
}

// ---------------------------------------------------------------------------
// colors.toml from a terminal configuration
// ---------------------------------------------------------------------------

pub open spec fn generate_from_kitty(conf: Option<Seq<char>>) -> Option<Seq<char>> {
    match conf {
        Some(c) => spec_build_output(spec_parse_kitty(c)),
        None => None,
    }
}

pub open spec fn generate_from_ghostty(conf: Option<Seq<char>>) -> Option<Seq<char>> {
    match conf {
        Some(c) => spec_build_output(spec_parse_ghostty(c)),
        None => None,
    }
}

pub open spec fn generate_from_alacritty(conf: Option<Seq<char>>) -> Option<Seq<char>> {
    match conf {
        Some(c) => match spec_parse_alacritty(c) {
            Some(m) => spec_build_output(m),
            None => None,
        },
        None => None,
    }
}

/// The colors.toml text generated from the first of kitty.conf, ghostty.conf
/// and alacritty.toml (each `None` where it could not be read) that yields a
/// complete palette.
pub open spec fn spec_generate(
    kitty: Option<Seq<char>>,
    ghostty: Option<Seq<char>>,
    alacritty: Option<Seq<char>>,
) -> Option<Seq<char>> {
    match generate_from_kitty(kitty) {
        Some(o) => Some(o),
        None => match generate_from_ghostty(ghostty) {
            Some(o) => Some(o),
            None => generate_from_alacritty(alacritty),
        },
    }
}

/// Whether generating returns: each configuration that is read has only
/// colors that normalize.
pub open spec fn generate_defined(
    kitty: Option<Seq<char>>,
    ghostty: Option<Seq<char>>,
    alacritty: Option<Seq<char>>,
) -> bool {
    generate_from_kitty(kitty) is None ==> {
        &&& (ghostty matches Some(c) ==> ghostty_defined(c))
        &&& (generate_from_ghostty(ghostty) is None ==> (alacritty matches Some(c)
            ==> alacritty_conf_defined(c)))
    }
}


/// Generates colors.toml; the outer `None` where a color in a configuration
/// that is read cannot be normalized.
pub fn generate_checked(kitty: Option<&str>, ghostty: Option<&str>, alacritty: Option<&str>) -> (r:
    Option<Option<String>>)
    ensures
        r is Some <==> generate_defined(opt_str_view(kitty), opt_str_view(ghostty), opt_str_view(alacritty)),
        r matches Some(o) ==> match o {
            Some(t) => spec_generate(opt_str_view(kitty), opt_str_view(ghostty), opt_str_view(alacritty))
                == Some(t@),
            None => spec_generate(opt_str_view(kitty), opt_str_view(ghostty), opt_str_view(alacritty))
                is None,
        },
{
    if let Some(c) = kitty {
        let v = to_chars(c);
        let m = parse_kitty(v.as_slice());
        if let Some(out) = build_output(&m) {
            return Some(Some(from_chars(out.as_slice())));
        }
    }
    if let Some(c) = ghostty {
        let v = to_chars(c);
        match parse_ghostty(v.as_slice()) {
            Some(m) => {
                if let Some(out) = build_output(&m) {
                    return Some(Some(from_chars(out.as_slice())));
                }
            },
            None => {
                return None;
            },
        }
    }
    if let Some(c) = alacritty {
        match parse_alacritty(c) {
            Some(Some(m)) => {
                if let Some(out) = build_output(&m) {
                    return Some(Some(from_chars(out.as_slice())));
                }
            },
            Some(None) => {},
            None => {
                return None;
            },
        }
    }
    Some(None)
}

/// Generates colors.toml from the first of kitty.conf, ghostty.conf and
/// alacritty.toml (each `None` where it could not be read) that yields a
/// complete palette.
pub fn generate(kitty: Option<&str>, ghostty: Option<&str>, alacritty: Option<&str>) -> (r: Option<
    String,
>)
    requires
        generate_defined(opt_str_view(kitty), opt_str_view(ghostty), opt_str_view(alacritty)),
    ensures
        match r {
            Some(t) => spec_generate(opt_str_view(kitty), opt_str_view(ghostty), opt_str_view(alacritty))
                == Some(t@),
            None => spec_generate(opt_str_view(kitty), opt_str_view(ghostty), opt_str_view(alacritty)) is None,
        },
{
    match generate_checked(kitty, ghostty, alacritty) {
        Some(o) => o,
        None => None,
    }
}

} // verus!
