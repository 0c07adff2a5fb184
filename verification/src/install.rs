//! Installing a theme from a git repository.
use vstd::prelude::*;
use crate::text::{
    ends_with, lemma_last_index_of,
    after_last, from_chars, last_index_of, last_segment, spec_strip_prefix, spec_strip_suffix, spec_trim_end,
    strip_prefix, strip_suffix, to_chars, trim_end, CharClass,
};

verus! {

/// Why no theme name can be derived from a repository URL.
#[derive(Debug, PartialEq, Eq)]
pub enum UrlError {
    /// The URL has no last path segment.
    NoName,
    /// Removing the usual prefixes and suffixes leaves nothing.
    EmptyName,
}

/// `s` without `p` in front, if it is there.
pub open spec fn without_prefix(s: Seq<char>, p: Seq<char>) -> Seq<char> {
    match spec_strip_prefix(s, p) {
        Some(r) => r,
        None => s,
    }
}

/// `s` without `p` at the end, if it is there.
pub open spec fn without_suffix(s: Seq<char>, p: Seq<char>) -> Seq<char> {
    match spec_strip_suffix(s, p) {
        Some(r) => r,
        None => s,
    }
}

/// The theme name of a repository URL: its last path segment (trailing
/// slashes ignored) without `.git`, then without `oxidize-`, then without
/// `omarchy-`, then without `-theme`.
pub open spec fn spec_theme_name_from_url(url: Seq<char>) -> Result<Seq<char>, UrlError> {
    let base = last_segment(spec_trim_end(url, CharClass::Is('/')), '/');
    if base.len() == 0 {
        Err(UrlError::NoName)
    } else {
        let n1 = without_suffix(base, ".git"@);
        let n2 = without_prefix(n1, "oxidize-"@);
        let n3 = without_prefix(n2, "omarchy-"@);
        let n4 = without_suffix(n3, "-theme"@);
        if n4.len() == 0 {
            Err(UrlError::EmptyName)
        } else {
            Ok(n4)
        }
    }
}

/// Derives a theme name from a git repository URL.
pub fn theme_name_from_url(url: &str) -> (r: Result<String, UrlError>)
    ensures
        match (r, spec_theme_name_from_url(url@)) {
            (Ok(n), Ok(sn)) => n@ == sn,
            (Err(e), Err(se)) => e == se,
            _ => false,
        },
{
    let u = to_chars(url);
    let t = trim_end(u.as_slice(), CharClass::Is('/'));
    let base = after_last(t.as_slice(), '/');
    if base.len() == 0 {
        return Err(UrlError::NoName);
    }
    let n1 = match strip_suffix(base.as_slice(), ".git") {
        Some(r) => r,
        None => base,
    };
    let n2 = match strip_prefix(n1.as_slice(), "oxidize-") {
        Some(r) => r,
        None => n1,
    };
    let n3 = match strip_prefix(n2.as_slice(), "omarchy-") {
        Some(r) => r,
        None => n2,
    };
    let n4 = match strip_suffix(n3.as_slice(), "-theme") {
        Some(r) => r,
        None => n3,
    };
    if n4.len() == 0 {
        return Err(UrlError::EmptyName);
    }
    Ok(from_chars(n4.as_slice()))
}

pub open spec fn has_no(s: Seq<char>, c: char) -> bool {
    forall|i: int| 0 <= i < s.len() ==> #[trigger] s[i] != c
}

proof fn lemma_last_index_props(s: Seq<char>, c: char)
    ensures
        last_index_of(s, c) matches Some(i) ==> 0 <= i < s.len() && forall|j: int|
            i < j < s.len() ==> s[j] != c,
        last_index_of(s, c) is None ==> forall|j: int| 0 <= j < s.len() ==> s[j] != c,
    decreases s.len(),
{
    if s.len() > 0 && s.last() != c {
        lemma_last_index_props(s.drop_last(), c);
        assert forall|j: int| 0 <= j < s.len() - 1 implies s[j] == s.drop_last()[j] by {}
    }
}

proof fn lemma_last_segment_has_no(s: Seq<char>, c: char)
    ensures
        has_no(last_segment(s, c), c),
{
    lemma_last_index_props(s, c);
    match last_index_of(s, c) {
        Some(i) => {
            assert forall|j: int| 0 <= j < last_segment(s, c).len() implies #[trigger] last_segment(
                s,
                c,
            )[j] != c by {
                assert(last_segment(s, c)[j] == s[i + 1 + j]);
            }
        },
        None => {},
    }
}

/// A theme name derived from a URL is a single, non-empty path segment.
pub proof fn law_theme_name_is_a_segment(url: Seq<char>)
    ensures
        spec_theme_name_from_url(url) matches Ok(n) ==> n.len() > 0 && has_no(n, '/'),
{
    let base = last_segment(spec_trim_end(url, CharClass::Is('/')), '/');
    lemma_last_segment_has_no(spec_trim_end(url, CharClass::Is('/')), '/');
    let n1 = without_suffix(base, ".git"@);
    assert(has_no(n1, '/')) by {
        if spec_strip_suffix(base, ".git"@) is Some {
            assert forall|i: int| 0 <= i < n1.len() implies #[trigger] n1[i] != '/' by {
                assert(n1[i] == base[i]);
            }
        }
    }
    let n2 = without_prefix(n1, "oxidize-"@);
    assert(has_no(n2, '/')) by {
        if spec_strip_prefix(n1, "oxidize-"@) is Some {
            assert forall|i: int| 0 <= i < n2.len() implies #[trigger] n2[i] != '/' by {
                assert(n2[i] == n1[i + "oxidize-"@.len()]);
            }
        }
    }
    let n3 = without_prefix(n2, "omarchy-"@);
    assert(has_no(n3, '/')) by {
        if spec_strip_prefix(n2, "omarchy-"@) is Some {
            assert forall|i: int| 0 <= i < n3.len() implies #[trigger] n3[i] != '/' by {
                assert(n3[i] == n2[i + "omarchy-"@.len()]);
            }
        }
    }
    let n4 = without_suffix(n3, "-theme"@);
    assert(has_no(n4, '/')) by {
        if spec_strip_suffix(n3, "-theme"@) is Some {
            assert forall|i: int| 0 <= i < n4.len() implies #[trigger] n4[i] != '/' by {
                assert(n4[i] == n3[i]);
            }
        }
    }
}

proof fn lemma_url_base(d: Seq<char>, s: Seq<char>)
    requires
        s.len() > 0,
        has_no(s, '/'),
    ensures
        last_segment(spec_trim_end(d + seq!['/'] + s, CharClass::Is('/')), '/') == s,
{
    let u = d + seq!['/'] + s;
    assert(u.last() == s.last());
    assert(spec_trim_end(u, CharClass::Is('/')) == u);
    assert(u[d.len() as int] == '/');
    assert forall|j: int| d.len() < j < u.len() implies u[j] != '/' by {
        assert(u[j] == s[j - d.len() - 1]);
    }
    lemma_last_index_of(u, '/', d.len() as int);
    assert(u.skip(d.len() + 1 as int) =~= s);
}

/// A repository URL ending in `.git` names the same theme as the URL
/// without it: `.git` is removed from every name, whatever the name's
/// prefixes (a name that ends in `.git` once more keeps that one).
pub proof fn law_git_suffix_is_dropped(d: Seq<char>, s: Seq<char>)
    requires
        s.len() > 0,
        has_no(s, '/'),
        !ends_with(s, ".git"@),
    ensures
        spec_theme_name_from_url(d + seq!['/'] + s + ".git"@) == spec_theme_name_from_url(
            d + seq!['/'] + s,
        ),
{
    reveal_strlit(".git");
    let g = s + ".git"@;
    assert(has_no(g, '/')) by {
        assert forall|i: int| 0 <= i < g.len() implies #[trigger] g[i] != '/' by {
            if i >= s.len() {
                assert(g[i] == ".git"@[i - s.len()]);
            }
        }
    }
    assert(d + seq!['/'] + s + ".git"@ =~= d + seq!['/'] + g);
    lemma_url_base(d, g);
    lemma_url_base(d, s);
    assert(g.skip(g.len() - 4) =~= ".git"@);
    assert(g.take(g.len() - 4) =~= s);
    assert(without_suffix(g, ".git"@) == s);
    assert(without_suffix(s, ".git"@) == s);
}

} // verus!
