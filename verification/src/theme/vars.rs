//! Template variables from colors.toml.
use vstd::prelude::*;
use crate::text::{
    hex_value, law_hex_digits_ignore_case, spec_ascii_lowercase,
    opt_string_view,
    ends_with, from_chars, hex_digit_value, hex_pair_value, is_ascii_hexdigit, is_hex_digit,
    push_chars, push_decimal, push_signed_decimal, push_str, copy_chars, spec_decimal,
    spec_signed_decimal,
    spec_trim_start, to_chars, trim_start, CharClass,
};
use crate::toml_doc::{parse_toml, toml_document, TomlValue};
use crate::theme::border::BorderColors;
use crate::varmap::VarMap;

verus! {

/// `r,g,b` in decimal for a bare six-digit hex color.
pub open spec fn spec_hex_to_rgb(hex: Seq<char>) -> Option<Seq<char>> {
    if hex.len() == 6 && forall|i: int| 0 <= i < 6 ==> is_ascii_hexdigit(#[trigger] hex[i]) {
        Some(
            spec_decimal(hex_pair_value(hex[0], hex[1])) + ","@ + spec_decimal(
                hex_pair_value(hex[2], hex[3]),
            ) + ","@ + spec_decimal(hex_pair_value(hex[4], hex[5])),
        )
    } else {
        None
    }
}

/// A color without its leading `#` characters.
pub open spec fn bare_hex(hex: Seq<char>) -> Seq<char> {
    spec_trim_start(hex, CharClass::Is('#'))
}

/// Converts a bare six-character hex string to `r,g,b`.
pub fn hex_to_rgb(hex: &[char]) -> (r: Option<Vec<char>>)
    ensures
        r matches Some(v) ==> spec_hex_to_rgb(hex@) == Some(v@),
        r is None ==> spec_hex_to_rgb(hex@) is None,
{
    if hex.len() != 6 {
        return None;
    }
    let mut i: usize = 0;
    while i < 6
        invariant
            hex.len() == 6,
            i <= 6,
            forall|j: int| 0 <= j < i ==> is_ascii_hexdigit(#[trigger] hex@[j]),
        decreases 6 - i,
    {
        if !is_hex_digit(hex[i]) {
            return None;
        }
        i += 1;
    }
    let mut out: Vec<char> = Vec::new();
    let r = (hex_digit_value(hex[0]) * 16 + hex_digit_value(hex[1])) as u64;
    let g = (hex_digit_value(hex[2]) * 16 + hex_digit_value(hex[3])) as u64;
    let b = (hex_digit_value(hex[4]) * 16 + hex_digit_value(hex[5])) as u64;
    push_decimal(&mut out, r);
    push_str(&mut out, ",");
    push_decimal(&mut out, g);
    push_str(&mut out, ",");
    push_decimal(&mut out, b);
    Some(out)
}

/// `m` with the entries derived from `key = hex` set.
pub open spec fn with_derived_pairs(m: Map<Seq<char>, Seq<char>>, key: Seq<char>, hex: Seq<char>) -> Map<
    Seq<char>,
    Seq<char>,
> {
    let bare = bare_hex(hex);
    let m1 = m.insert(key + "_strip"@, bare);
    match spec_hex_to_rgb(bare) {
        Some(rgb) => m1.insert(key + "_rgb"@, rgb),
        None => m1,
    }
}

/// Sets the entries derived from `key = hex`.
fn insert_derived(vars: &mut VarMap, key: &[char], hex: &[char])
    ensures
        final(vars).map() == with_derived_pairs(old(vars).map(), key@, hex@),
{
    let bare = trim_start(hex, CharClass::Is('#'));
    let mut k1: Vec<char> = Vec::new();
    push_chars(&mut k1, key);
    push_str(&mut k1, "_strip");
    let rgb = hex_to_rgb(bare.as_slice());
    vars.insert(k1, bare);
    if let Some(v) = rgb {
        let mut k2: Vec<char> = Vec::new();
        push_chars(&mut k2, key);
        push_str(&mut k2, "_rgb");
        vars.insert(k2, v);
    }
}

/// Sets `border_active` to `color`, with its derived entries.
pub fn insert_border_active(vars: &mut VarMap, color: &str)
    ensures
        final(vars).map() == with_derived_pairs(
            old(vars).map().insert("border_active"@, color@),
            "border_active"@,
            color@,
        ),
{
    let key = to_chars("border_active");
    let c = to_chars(color);
    vars.insert(key.clone(), c.clone());
    insert_derived(vars, key.as_slice(), c.as_slice());
}

/// Sets `border_inactive` to `color`, with its derived entries.
pub fn insert_border_inactive(vars: &mut VarMap, color: &str)
    ensures
        final(vars).map() == with_derived_pairs(
            old(vars).map().insert("border_inactive"@, color@),
            "border_inactive"@,
            color@,
        ),
{
    let key = to_chars("border_inactive");
    let c = to_chars(color);
    vars.insert(key.clone(), c.clone());
    insert_derived(vars, key.as_slice(), c.as_slice());
}

/// The value of `key` in `m`, if it has one.
pub open spec fn map_get(m: Map<Seq<char>, Seq<char>>, key: Seq<char>) -> Option<Seq<char>> {
    if m.dom().contains(key) {
        Some(m[key])
    } else {
        None
    }
}

/// `m` with `key` set to `color` and its derived entries, where there is a
/// color.
pub open spec fn with_color_var(m: Map<Seq<char>, Seq<char>>, key: Seq<char>, color: Option<Seq<char>>) -> Map<
    Seq<char>,
    Seq<char>,
> {
    match color {
        Some(c) => with_derived_pairs(m.insert(key, c), key, c),
        None => m,
    }
}

/// `vars` with the border variables: `border_active` from the window
/// manager's active border color, else `accent`, and `border_inactive` from
/// its inactive border color, else `color8`; each with `_strip` and `_rgb`.
pub open spec fn spec_border_vars(
    vars: Map<Seq<char>, Seq<char>>,
    border: (Option<Seq<char>>, Option<Seq<char>>),
) -> Map<Seq<char>, Seq<char>> {
    let active = match border.0 {
        Some(c) => Some(c),
        None => map_get(vars, "accent"@),
    };
    let inactive = match border.1 {
        Some(c) => Some(c),
        None => map_get(vars, "color8"@),
    };
    with_color_var(with_color_var(vars, "border_active"@, active), "border_inactive"@, inactive)
}

/// Sets the border variables from the theme's border colors, falling back
/// to `accent` and `color8`.
pub fn insert_border_vars(vars: &mut VarMap, border: &BorderColors)
    ensures
        final(vars).map() == spec_border_vars(
            old(vars).map(),
            (opt_string_view(border.active), opt_string_view(border.inactive)),
        ),
{
    let active = match &border.active {
        Some(c) => Some(c.clone()),
        None => vars.get_str("accent"),
    };
    let inactive = match &border.inactive {
        Some(c) => Some(c.clone()),
        None => vars.get_str("color8"),
    };
    if let Some(c) = &active {
        insert_border_active(vars, c.as_str());
    }
    if let Some(c) = &inactive {
        insert_border_inactive(vars, c.as_str());
    }
}

/// The variable name of entry `k` inside a table named `prefix`.
pub open spec fn join_key(prefix: Seq<char>, k: Seq<char>) -> Seq<char> {
    if prefix.len() == 0 {
        k
    } else {
        prefix + "_"@ + k
    }
}

/// The text a scalar TOML value is stored as.
pub open spec fn scalar_text(v: TomlValue) -> Option<Seq<char>> {
    match v {
        TomlValue::Str(s) => Some(s@),
        TomlValue::Int(i) => Some(spec_signed_decimal(i as int)),
        TomlValue::Float(t) => Some(t@),
        TomlValue::Bool(b) => Some(
            if b {
                "true"@
            } else {
                "false"@
            },
        ),
        _ => None,
    }
}

/// `m` with every scalar of `v` set under its `prefix_key_subkey` name, in
/// document order; arrays and datetimes are left out.
pub open spec fn spec_flatten(prefix: Seq<char>, v: TomlValue, m: Map<Seq<char>, Seq<char>>) -> Map<
    Seq<char>,
    Seq<char>,
>
    decreases v, 1int,
{
    match v {
        TomlValue::Table(es) => flatten_entries(prefix, es@, m),
        _ => match scalar_text(v) {
            Some(t) => m.insert(prefix, t),
            None => m,
        },
    }
}

/// `spec_flatten` over the entries of a table, in order.
pub open spec fn flatten_entries(
    prefix: Seq<char>,
    es: Seq<(String, TomlValue)>,
    m: Map<Seq<char>, Seq<char>>,
) -> Map<Seq<char>, Seq<char>>
    decreases es, 0int,
{
    if es.len() == 0 {
        m
    } else {
        spec_flatten(
            join_key(prefix, es.last().0@),
            es.last().1,
            flatten_entries(prefix, es.drop_last(), m),
        )
    }
}

fn join_key_exec(prefix: &[char], k: &str) -> (r: Vec<char>)
    ensures
        r@ == join_key(prefix@, k@),
{
    let mut r: Vec<char> = Vec::new();
    if prefix.len() == 0 {
        push_str(&mut r, k);
    } else {
        push_chars(&mut r, prefix);
        push_str(&mut r, "_");
        push_str(&mut r, k);
        assert(r@ =~= prefix@ + "_"@ + k@);
    }
    r
}

/// Flattens the entries of a table into `prefix_key = text` entries.
fn flatten_table(prefix: &[char], es: &Vec<(String, TomlValue)>, out: VarMap) -> (r: VarMap)
    ensures
        r.map() == flatten_entries(prefix@, es@, out.map()),
    decreases es, 0int,
{
    let mut acc = out;
    let mut i: usize = 0;
    while i < es.len()
        invariant
            i <= es@.len(),
            acc.map() == flatten_entries(prefix@, es@.take(i as int), out.map()),
        decreases es.len() - i,
    {
        let key = join_key_exec(prefix, es[i].0.as_str());
        assert(es@.take(i + 1).drop_last() =~= es@.take(i as int));
        proof {
            let e = es@[i as int];
            assert(decreases_to!(*es => es@));
            assert(decreases_to!(es@ => e));
            assert(decreases_to!(e => e.1));
        }
        acc = flatten(key.as_slice(), &es[i].1, acc);
        i += 1;
    }
    assert(es@.take(i as int) =~= es@);
    acc
}

/// Flattens a TOML value into `prefix_key = text` entries.
pub fn flatten(prefix: &[char], value: &TomlValue, out: VarMap) -> (r: VarMap)
    ensures
        r.map() == spec_flatten(prefix@, *value, out.map()),
    decreases value, 1int,
{
    let ghost start = out.map();
    let mut out = out;
    match value {
        TomlValue::Table(es) => {
            proof {
                assert(decreases_to!(*value => (*value)->Table_0));
            }
            out = flatten_table(prefix, es, out);
            assert(out.map() == flatten_entries(prefix@, es@, start));
            assert(out.map() == spec_flatten(prefix@, *value, start));
        },
        TomlValue::Str(s) => {
            out.insert(copy_chars(prefix), to_chars(s.as_str()));
        },
        TomlValue::Int(n) => {
            let mut t: Vec<char> = Vec::new();
            push_signed_decimal(&mut t, *n);
            out.insert(copy_chars(prefix), t);
        },
        TomlValue::Float(t) => {
            out.insert(copy_chars(prefix), to_chars(t.as_str()));
        },
        TomlValue::Bool(b) => {
            let t = if *b {
                to_chars("true")
            } else {
                to_chars("false")
            };
            out.insert(copy_chars(prefix), t);
        },
        TomlValue::Other => {},
    }
    out
}

pub open spec fn starts_with_hash(v: Seq<char>) -> bool {
    v.len() > 0 && v[0] == '#'
}

/// The value that `vars` derives for `dk` from a color whose key lies in
/// `sources`: `<k>_strip` and `<k>_rgb` for each `k` whose value starts with
/// `#`.
pub open spec fn derived_value_from(
    vars: Map<Seq<char>, Seq<char>>,
    sources: Set<Seq<char>>,
    dk: Seq<char>,
) -> Option<Seq<char>> {
    if ends_with(dk, "_strip"@) {
        let k = dk.take(dk.len() - 6);
        if sources.contains(k) && vars.dom().contains(k) && starts_with_hash(vars[k]) {
            Some(bare_hex(vars[k]))
        } else {
            None
        }
    } else if ends_with(dk, "_rgb"@) {
        let k = dk.take(dk.len() - 4);
        if sources.contains(k) && vars.dom().contains(k) && starts_with_hash(vars[k]) {
            spec_hex_to_rgb(bare_hex(vars[k]))
        } else {
            None
        }
    } else {
        None
    }
}

/// `vars` with the entries derived from the colors whose keys lie in
/// `sources`; a derived entry replaces an entry of the same name.
pub open spec fn with_derived_from(vars: Map<Seq<char>, Seq<char>>, sources: Set<Seq<char>>) -> Map<
    Seq<char>,
    Seq<char>,
> {
    Map::new(
        |dk: Seq<char>| vars.dom().contains(dk) || derived_value_from(vars, sources, dk) is Some,
        |dk: Seq<char>|
            match derived_value_from(vars, sources, dk) {
                Some(v) => v,
                None => vars[dk],
            },
    )
}

/// `vars` with `<k>_strip` (the color without `#`) and, for a six-digit hex
/// color, `<k>_rgb` (`r,g,b`) for every `k` whose value starts with `#`.
pub open spec fn with_derived(vars: Map<Seq<char>, Seq<char>>) -> Map<Seq<char>, Seq<char>> {
    with_derived_from(vars, vars.dom())
}

proof fn lemma_suffix_split(k: Seq<char>, suffix: Seq<char>)
    ensures
        ends_with(k + suffix, suffix),
        (k + suffix).take((k + suffix).len() - suffix.len()) == k,
{
    assert((k + suffix).skip((k + suffix).len() - suffix.len()) =~= suffix);
    assert((k + suffix).take((k + suffix).len() - suffix.len()) =~= k);
}

proof fn lemma_ends_with_split(dk: Seq<char>, suffix: Seq<char>)
    requires
        ends_with(dk, suffix),
    ensures
        dk == dk.take(dk.len() - suffix.len()) + suffix,
{
    assert(dk =~= dk.take(dk.len() - suffix.len()) + dk.skip(dk.len() - suffix.len()));
}

/// Adding one more source key `k` adds exactly its derived entries.
proof fn lemma_derive_step(vars: Map<Seq<char>, Seq<char>>, sources: Set<Seq<char>>, k: Seq<char>)
    requires
        vars.dom().contains(k),
        !sources.contains(k),
    ensures
        with_derived_from(vars, sources.insert(k)) == if starts_with_hash(vars[k]) {
            with_derived_pairs(with_derived_from(vars, sources), k, vars[k])
        } else {
            with_derived_from(vars, sources)
        },
{
    reveal_strlit("_strip");
    reveal_strlit("_rgb");
    let s2 = sources.insert(k);
    let before = with_derived_from(vars, sources);
    let after = with_derived_from(vars, s2);
    let ks = k + "_strip"@;
    let kr = k + "_rgb"@;
    lemma_suffix_split(k, "_strip"@);
    lemma_suffix_split(k, "_rgb"@);
    assert(!ends_with(kr, "_strip"@)) by {
        assert(kr[kr.len() - 1] == 'b');
        if kr.len() >= 6 {
            assert(kr.skip(kr.len() - 6)[5] == kr[kr.len() - 1]);
            assert("_strip"@[5] == 'p');
        }
    }
    assert forall|dk: Seq<char>|
        dk != ks && dk != kr implies derived_value_from(vars, s2, dk) == derived_value_from(
            vars,
            sources,
            dk,
        ) by {
        if ends_with(dk, "_strip"@) {
            lemma_ends_with_split(dk, "_strip"@);
        } else if ends_with(dk, "_rgb"@) {
            lemma_ends_with_split(dk, "_rgb"@);
        }
    }
    if starts_with_hash(vars[k]) {
        let target = with_derived_pairs(before, k, vars[k]);
        assert(after =~= target);
    } else {
        assert(after =~= before);
    }
}

/// Sets, for every key whose value starts with `#`, the derived entries
/// `<key>_strip` and `<key>_rgb`.
pub fn derive_all(vars: VarMap) -> (r: VarMap)
    ensures
        r.map() == with_derived(vars.map()),
{
    let ghost vars0 = vars.map();
    let es = vars.entries();
    let mut acc = vars;
    let mut i: usize = 0;
    assert(with_derived_from(vars0, Set::empty()) =~= vars0);
    assert(Set::<Seq<char>>::new(|k: Seq<char>| exists|j: int| 0 <= j < 0 && es@[j].0@ == k)
        =~= Set::empty());
    while i < es.len()
        invariant
            i <= es@.len(),
            forall|j: int| #![trigger es@[j]]
                0 <= j < es@.len() ==> vars0.dom().contains(es@[j].0@) && vars0[es@[j].0@]
                    == es@[j].1@,
            forall|a: int, b: int|
                0 <= a < es@.len() && 0 <= b < es@.len() && a != b ==> #[trigger] es@[a].0@
                    != #[trigger] es@[b].0@,
            acc.map() == with_derived_from(
                vars0,
                Set::new(|k: Seq<char>| exists|j: int| 0 <= j < i && es@[j].0@ == k),
            ),
        decreases es.len() - i,
    {
        let ghost s = Set::new(|k: Seq<char>| exists|j: int| 0 <= j < i && es@[j].0@ == k);
        let ghost s2 = Set::new(|k: Seq<char>| exists|j: int| 0 <= j < i + 1 && es@[j].0@ == k);
        proof {
            let k = es@[i as int].0@;
            assert(!s.contains(k)) by {
                if s.contains(k) {
                    let j = choose|j: int| 0 <= j < i && es@[j].0@ == k;
                    assert(es@[j].0@ != es@[i as int].0@);
                }
            }
            assert(s2 =~= s.insert(k));
            lemma_derive_step(vars0, s, k);
        }
        let k = &es[i].0;
        let v = &es[i].1;
        if v.len() > 0 && v[0] == '#' {
            insert_derived(&mut acc, k.as_slice(), v.as_slice());
        }
        i += 1;
    }
    proof {
        let s = Set::new(|k: Seq<char>| exists|j: int| 0 <= j < i && es@[j].0@ == k);
        assert(s =~= vars0.dom());
    }
    acc
}

/// What reading colors.toml gives: its flattened entries with the derived
/// color entries, or nothing where the text is no TOML document.
pub open spec fn spec_build_vars(src: Seq<char>) -> Option<Map<Seq<char>, Seq<char>>> {
    match toml_document(src) {
        Some(doc) => Some(with_derived(spec_flatten(seq![], doc, Map::empty()))),
        None => None,
    }
}

/// The error reading colors.toml can give.
#[derive(Debug)]
pub enum VarsError {
    /// The text is no TOML document.
    Parse,
}

/// Builds the template variables from the text of colors.toml: every scalar
/// under its flattened name, and for every color `<key>_strip` and
/// `<key>_rgb`.
pub fn build_vars_from_colors(src: &str) -> (r: Result<VarMap, VarsError>)
    ensures
        match (r, spec_build_vars(src@)) {
            (Ok(m), Some(sm)) => m.map() == sm,
            (Err(VarsError::Parse), None) => true,
            _ => false,
        },
{
    let table = match parse_toml(src) {
        Some(t) => t,
        None => {
            return Err(VarsError::Parse);
        },
    };
    Ok(vars_from_document(&table))
}

/// The template variables of a parsed colors.toml: every scalar under its
/// flattened name, and for every color `<key>_strip` and `<key>_rgb`.
pub fn vars_from_document(doc: &TomlValue) -> (r: VarMap)
    ensures
        r.map() == with_derived(spec_flatten(seq![], *doc, Map::empty())),
{
    let empty: Vec<char> = Vec::new();
    let flat = flatten(empty.as_slice(), doc, VarMap::new());
    assert(empty@ =~= Seq::<char>::empty());
    derive_all(flat)
}

/// A color whose value starts with `#` yields `<key>_strip` (the value
/// without `#`) and, for six hex digits, `<key>_rgb`; a name that is not a
/// derived one keeps its value.
pub proof fn law_color_variables(vars: Map<Seq<char>, Seq<char>>, k: Seq<char>)
    requires
        vars.dom().contains(k),
    ensures
        starts_with_hash(vars[k]) ==> {
            &&& with_derived(vars).dom().contains(k + "_strip"@)
            &&& with_derived(vars)[k + "_strip"@] == bare_hex(vars[k])
            &&& spec_hex_to_rgb(bare_hex(vars[k])) matches Some(rgb) ==> with_derived(
                vars,
            ).dom().contains(k + "_rgb"@) && with_derived(vars)[k + "_rgb"@] == rgb
        },
        !ends_with(k, "_strip"@) && !ends_with(k, "_rgb"@) ==> with_derived(vars).dom().contains(k)
            && with_derived(vars)[k] == vars[k],
{
    reveal_strlit("_strip");
    reveal_strlit("_rgb");
    lemma_suffix_split(k, "_strip"@);
    lemma_suffix_split(k, "_rgb"@);
    let kr = k + "_rgb"@;
    assert(!ends_with(kr, "_strip"@)) by {
        assert(kr[kr.len() - 1] == 'b');
        if kr.len() >= 6 {
            assert(kr.skip(kr.len() - 6)[5] == kr[kr.len() - 1]);
            assert("_strip"@[5] == 'p');
        }
    }
}

/// The hexadecimal digit of `n < 16`, in lower case.
pub open spec fn hex_digit_char(n: nat) -> char {
    if n < 10 {
        ((n + ('0' as u32)) as u32) as char
    } else {
        ((n - 10 + ('a' as u32)) as u32) as char
    }
}

/// A byte as two hexadecimal digits.
pub open spec fn hex_byte(b: u8) -> Seq<char> {
    seq![hex_digit_char((b / 16) as nat), hex_digit_char((b % 16) as nat)]
}

proof fn lemma_hex_digit_char(n: nat)
    requires
        n < 16,
    ensures
        is_ascii_hexdigit(hex_digit_char(n)),
        crate::text::hex_value(hex_digit_char(n)) == n,
{
}

/// A color written as `#rrggbb` from three bytes gives those bytes back, in
/// decimal, as its `_rgb` value.
pub proof fn law_rgb_of_hex(r: u8, g: u8, b: u8)
    ensures
        spec_hex_to_rgb(bare_hex(seq!['#'] + hex_byte(r) + hex_byte(g) + hex_byte(b))) == Some(
            spec_decimal(r as nat) + ","@ + spec_decimal(g as nat) + ","@ + spec_decimal(b as nat),
        ),
{
    let h = hex_byte(r) + hex_byte(g) + hex_byte(b);
    let s = seq!['#'] + h;
    lemma_hex_digit_char((r / 16) as nat);
    lemma_hex_digit_char((r % 16) as nat);
    lemma_hex_digit_char((g / 16) as nat);
    lemma_hex_digit_char((g % 16) as nat);
    lemma_hex_digit_char((b / 16) as nat);
    lemma_hex_digit_char((b % 16) as nat);
    assert(s.drop_first() =~= h);
    assert(seq!['#'] + hex_byte(r) + hex_byte(g) + hex_byte(b) =~= s);
    assert(h[0] != '#');
    assert(spec_trim_start(h, CharClass::Is('#')) == h);
    assert(bare_hex(s) == h);
    assert(h.len() == 6);
    assert(forall|i: int| 0 <= i < 6 ==> is_ascii_hexdigit(#[trigger] h[i])) by {
        assert(h[0] == hex_digit_char((r / 16) as nat));
        assert(h[1] == hex_digit_char((r % 16) as nat));
        assert(h[2] == hex_digit_char((g / 16) as nat));
        assert(h[3] == hex_digit_char((g % 16) as nat));
        assert(h[4] == hex_digit_char((b / 16) as nat));
        assert(h[5] == hex_digit_char((b % 16) as nat));
    }
    assert(hex_pair_value(h[0], h[1]) == r as nat);
    assert(hex_pair_value(h[2], h[3]) == g as nat);
    assert(hex_pair_value(h[4], h[5]) == b as nat);
}

/// The `_rgb` value of a hex color does not depend on the case of its
/// letters: upper- and lower-case digits give the same bytes.
pub proof fn law_rgb_ignores_case(h: Seq<char>)
    ensures
        spec_hex_to_rgb(h) == spec_hex_to_rgb(spec_ascii_lowercase(h)),
{
    let l = spec_ascii_lowercase(h);
    assert forall|i: int| 0 <= i < h.len() implies (is_ascii_hexdigit(#[trigger] h[i])
        <==> is_ascii_hexdigit(l[i])) && (is_ascii_hexdigit(h[i]) ==> hex_value(h[i]) == hex_value(
        l[i],
    )) by {
        law_hex_digits_ignore_case(h[i]);
    }
    if h.len() == 6 && forall|i: int| 0 <= i < 6 ==> is_ascii_hexdigit(#[trigger] h[i]) {
        assert(forall|i: int| 0 <= i < 6 ==> is_ascii_hexdigit(#[trigger] l[i]));
        assert(hex_pair_value(h[0], h[1]) == hex_pair_value(l[0], l[1]));
        assert(hex_pair_value(h[2], h[3]) == hex_pair_value(l[2], l[3]));
        assert(hex_pair_value(h[4], h[5]) == hex_pair_value(l[4], l[5]));
    } else if h.len() == 6 {
        let i = choose|i: int| 0 <= i < 6 && !is_ascii_hexdigit(#[trigger] h[i]);
        assert(!is_ascii_hexdigit(l[i]));
    }
}

} // verus!
