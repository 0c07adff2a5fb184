//! The decisions of the command-line commands: confirming a removal, which
//! themes to update, and the order themes are listed in.
use vstd::prelude::*;
use crate::text::{
    ascii_lowercase, chars_eq, chars_eq_str, from_chars, opt_str_view, push_decimal, push_str,
    opt_string_view, spec_ascii_lowercase, spec_decimal, spec_trim, strings_view, to_chars, trim,
};
use crate::theme::{read_trimmed, spec_read_trimmed};

verus! {

// ---------------------------------------------------------------------------
// Removing a theme
// ---------------------------------------------------------------------------

/// An answer that confirms: `y` or `yes` in any case, around whitespace.
/// (No character outside ASCII lowercases to `y`, `e` or `s` alone, so an
/// ASCII case fold decides it as a full one does.)
pub open spec fn spec_is_confirmation(line: Seq<char>) -> bool {
    let t = spec_ascii_lowercase(spec_trim(line));
    t == "y"@ || t == "yes"@
}

/// Whether an answer to the removal prompt confirms it.
pub fn is_confirmation(line: &str) -> (b: bool)
    ensures
        b == spec_is_confirmation(line@),
{
    let c = to_chars(line);
    let t = trim(c.as_slice());
    let l = ascii_lowercase(t.as_slice());
    chars_eq_str(l.as_slice(), "y") || chars_eq_str(l.as_slice(), "yes")
}

/// Why a theme cannot be removed.
#[derive(Clone, Copy, Debug, PartialEq, Eq)]
pub enum RemoveError {
    /// There is no such theme directory.
    NotFound,
    /// It is the current theme, and removal was not forced.
    IsCurrent,
}

/// Whether theme `name` may be removed: its directory must exist
/// (`theme_is_dir`), and unless `force` it must not be the current theme,
/// as recorded in the text of current.theme (`None` where it is missing).
pub fn remove_check(name: &str, theme_is_dir: bool, current_text: Option<&str>, force: bool) -> (r:
    Result<(), RemoveError>)
    ensures
        r == if !theme_is_dir {
            Err(RemoveError::NotFound)
        } else if !force && spec_read_trimmed(opt_str_view(current_text)) == Some(name@) {
            Err(RemoveError::IsCurrent)
        } else {
            Ok(())
        },
{
    if !theme_is_dir {
        return Err(RemoveError::NotFound);
    }
    if !force {
        let current = read_trimmed(current_text);
        if let Some(c) = current {
            let cc = to_chars(c.as_str());
            let nc = to_chars(name);
            if chars_eq(cc.as_slice(), nc.as_slice()) {
                return Err(RemoveError::IsCurrent);
            }
        }
    }
    Ok(())
}

// ---------------------------------------------------------------------------
// Updating themes
// ---------------------------------------------------------------------------


/// The names of the installed themes that hold a `.git` directory, in order.
pub open spec fn git_names(installed: Seq<(String, bool)>) -> Seq<Seq<char>>
    decreases installed.len(),
{
    if installed.len() == 0 {
        seq![]
    } else {
        let rest = git_names(installed.drop_last());
        if installed.last().1 {
            rest.push(installed.last().0@)
        } else {
            rest
        }
    }
}

/// The requested theme does not exist.
#[derive(Clone, Copy, Debug, PartialEq, Eq)]
pub struct UpdateNotFound;

/// The themes to update: the requested one, which must exist
/// (`requested_is_dir`), or else every installed theme that holds a `.git`
/// directory (`installed` pairs each name with that fact).
pub fn update_targets(requested: Option<&str>, requested_is_dir: bool, installed: &[(String, bool)]) -> (r:
    Result<Vec<String>, UpdateNotFound>)
    ensures
        match requested {
            Some(n) => if requested_is_dir {
                r matches Ok(v) && strings_view(v@) == seq![n@]
            } else {
                r == Err::<Vec<String>, UpdateNotFound>(UpdateNotFound)
            },
            None => r matches Ok(v) && strings_view(v@) == git_names(installed@),
        },
{
    match requested {
        Some(n) => {
            if !requested_is_dir {
                return Err(UpdateNotFound);
            }
            let mut v: Vec<String> = Vec::new();
            v.push(n.to_owned());
            assert(strings_view(v@) =~= seq![n@]);
            Ok(v)
        },
        None => {
            let mut v: Vec<String> = Vec::new();
            let mut i: usize = 0;
            while i < installed.len()
                invariant
                    i <= installed.len(),
                    strings_view(v@) == git_names(installed@.take(i as int)),
                decreases installed.len() - i,
            {
                assert(installed@.take(i + 1).drop_last() =~= installed@.take(i as int));
                if installed[i].1 {
                    v.push(installed[i].0.clone());
                    assert(strings_view(v@) =~= git_names(installed@.take(i + 1)));
                }
                i += 1;
            }
            assert(installed@.take(installed.len() as int) =~= installed@);
            Ok(v)
        },
    }
}

/// The names joined with `, `.
pub open spec fn spec_join(names: Seq<Seq<char>>) -> Seq<char>
    decreases names.len(),
{
    if names.len() == 0 {
        seq![]
    } else if names.len() == 1 {
        names[0]
    } else {
        spec_join(names.drop_last()) + ", "@ + names.last()
    }
}

/// What an update reports when themes failed: how many, and which.
pub open spec fn spec_update_failure(failed: Seq<Seq<char>>) -> Seq<char> {
    spec_decimal(failed.len()) + " theme(s) failed to update: "@ + spec_join(failed)
}

/// The error an update ends with: none where every theme was pulled.
pub fn update_failure(failed: &[String]) -> (r: Option<String>)
    ensures
        failed@.len() == 0 ==> r is None,
        failed@.len() > 0 ==> (r matches Some(m) && m@ == spec_update_failure(
            strings_view(failed@),
        )),
{
    if failed.len() == 0 {
        return None;
    }
    let mut joined: Vec<char> = Vec::new();
    let mut i: usize = 0;
    while i < failed.len()
        invariant
            i <= failed.len(),
            joined@ == spec_join(strings_view(failed@.take(i as int))),
        decreases failed.len() - i,
    {
        let ghost prev = strings_view(failed@.take(i as int));
        assert(strings_view(failed@.take(i + 1)) =~= prev.push(failed@[i as int]@));
        if i > 0 {
            push_str(&mut joined, ", ");
        }
        push_str(&mut joined, failed[i].as_str());
        proof {
            let next = prev.push(failed@[i as int]@);
            assert(next.drop_last() =~= prev);
            if i == 0 {
                assert(prev.len() == 0);
                assert(joined@ =~= spec_join(next));
            } else {
                assert(joined@ =~= spec_join(next));
            }
        }
        i += 1;
    }
    assert(failed@.take(failed.len() as int) =~= failed@);
    let mut m: Vec<char> = Vec::new();
    push_decimal(&mut m, failed.len() as u64);
    push_str(&mut m, " theme(s) failed to update: ");
    crate::text::push_chars(&mut m, joined.as_slice());
    Some(from_chars(m.as_slice()))
}

// ---------------------------------------------------------------------------
// Listing themes
// ---------------------------------------------------------------------------

/// Lexicographic order of `a` and `b` from position `i` on: by the first
/// character that differs, and a prefix before what it begins.
pub open spec fn le_from(a: Seq<char>, b: Seq<char>, i: int) -> bool
    decreases a.len() - i,
{
    if i >= a.len() {
        true
    } else if i >= b.len() {
        false
    } else if a[i] != b[i] {
        a[i] < b[i]
    } else {
        le_from(a, b, i + 1)
    }
}

/// The order of `str`: lexicographic by character, which is the order of
/// their UTF-8 bytes.
pub open spec fn name_le(a: Seq<char>, b: Seq<char>) -> bool {
    le_from(a, b, 0)
}

pub open spec fn names_sorted(s: Seq<String>) -> bool {
    forall|i: int, j: int| 0 <= i < j < s.len() ==> #[trigger] name_le(s[i]@, s[j]@)
}

proof fn lemma_le_total(a: Seq<char>, b: Seq<char>, i: int)
    requires
        0 <= i,
    ensures
        le_from(a, b, i) || le_from(b, a, i),
    decreases a.len() - i,
{
    if i < a.len() && i < b.len() && a[i] == b[i] {
        lemma_le_total(a, b, i + 1);
    }
}

proof fn lemma_le_trans(a: Seq<char>, b: Seq<char>, c: Seq<char>, i: int)
    requires
        0 <= i,
        le_from(a, b, i),
        le_from(b, c, i),
    ensures
        le_from(a, c, i),
    decreases a.len() - i,
{
    if i < a.len() && a[i] == b[i] && b[i] == c[i] {
        lemma_le_trans(a, b, c, i + 1);
    }
}

/// Whether `a` comes before `b` or equals it.
fn chars_le(a: &[char], b: &[char]) -> (r: bool)
    ensures
        r == name_le(a@, b@),
{
    let mut i: usize = 0;
    while i < a.len() && i < b.len()
        invariant
            i <= a.len(),
            i <= b.len(),
            le_from(a@, b@, 0) == le_from(a@, b@, i as int),
        decreases a.len() - i,
    {
        if a[i] != b[i] {
            return a[i] < b[i];
        }
        i += 1;
    }
    i >= a.len()
}

/// The names in the order of `str`; the same names, each as often.
pub fn sort_names(names: Vec<String>) -> (r: Vec<String>)
    ensures
        r@.to_multiset() == names@.to_multiset(),
        names_sorted(r@),
{
    broadcast use vstd::seq_lib::group_to_multiset_ensures;
    broadcast use vstd::multiset::group_multiset_axioms;

    let mut rest = names;
    let mut r: Vec<String> = Vec::new();
    while rest.len() > 0
        invariant
            r@.to_multiset().add(rest@.to_multiset()) == names@.to_multiset(),
            names_sorted(r@),
        decreases rest.len(),
    {
        let ghost rest0 = rest@;
        let x = rest.pop().unwrap();
        assert(rest0 == rest@.push(x));
        let xc = to_chars(x.as_str());
        let mut p: usize = 0;
        while p < r.len() && chars_le(to_chars(r[p].as_str()).as_slice(), xc.as_slice())
            invariant
                p <= r.len(),
                xc@ == x@,
                forall|k: int| 0 <= k < p ==> #[trigger] name_le(r@[k]@, x@),
            decreases r.len() - p,
        {
            p += 1;
        }
        proof {
            if p < r.len() {
                lemma_le_total(r@[p as int]@, x@, 0);
                assert forall|k: int| p <= k < r@.len() implies #[trigger] name_le(x@, r@[k]@) by {
                    if k > p {
                        assert(name_le(r@[p as int]@, r@[k]@));
                        lemma_le_trans(x@, r@[p as int]@, r@[k]@, 0);
                    }
                }
            }
        }
        let ghost r0 = r@;
        r.insert(p, x);
        proof {
            assert(r@ == r0.insert(p as int, x));
            assert forall|i: int, j: int| 0 <= i < j < r@.len() implies #[trigger] name_le(
                r@[i]@,
                r@[j]@,
            ) by {
                if j < p {
                    assert(r@[i] == r0[i] && r@[j] == r0[j]);
                } else if j == p {
                    assert(r@[i] == r0[i]);
                } else if i == p {
                    assert(r@[j] == r0[j - 1]);
                } else if i < p {
                    assert(r@[i] == r0[i] && r@[j] == r0[j - 1]);
                } else {
                    assert(r@[i] == r0[i - 1] && r@[j] == r0[j - 1]);
                    assert(name_le(r0[i - 1]@, r0[j - 1]@));
                }
            }
            vstd::seq_lib::to_multiset_insert(r0, p as int, x);
            vstd::seq_lib::to_multiset_build(rest@, x);
            assert(r@.to_multiset().add(rest@.to_multiset()) =~= r0.to_multiset().add(
                rest0.to_multiset(),
            ));
        }
    }
    assert(rest@.to_multiset() =~= vstd::multiset::Multiset::empty());
    assert(r@.to_multiset().add(rest@.to_multiset()) =~= r@.to_multiset());
    r
}

/// The installed themes in the order they are listed, each marked where
/// it is the current one, as recorded in the text of current.theme
/// (`None` where it could not be read).
pub fn list_entries(names: Vec<String>, current_text: Option<&str>) -> (r: (Vec<String>, Vec<bool>))
    ensures
        r.0@.to_multiset() == names@.to_multiset(),
        names_sorted(r.0@),
        r.1@.len() == r.0@.len(),
        forall|i: int| #![trigger r.1@[i]]
            0 <= i < r.1@.len() ==> r.1@[i] == (spec_read_trimmed(opt_str_view(current_text))
                == Some(r.0@[i]@)),
{
    let sorted = sort_names(names);
    let current = read_trimmed(current_text);
    let mut marks: Vec<bool> = Vec::new();
    let mut i: usize = 0;
    while i < sorted.len()
        invariant
            i <= sorted.len(),
            marks@.len() == i,
            opt_string_view(current) == spec_read_trimmed(opt_str_view(current_text)),
            forall|k: int| #![trigger marks@[k]]
                0 <= k < i ==> marks@[k] == (opt_string_view(current) == Some(sorted@[k]@)),
        decreases sorted.len() - i,
    {
        let m = match &current {
            Some(c) => {
                let cc = to_chars(c.as_str());
                let nc = to_chars(sorted[i].as_str());
                chars_eq(cc.as_slice(), nc.as_slice())
            },
            None => false,
        };
        marks.push(m);
        i += 1;
    }
    (sorted, marks)
}

} // verus!
