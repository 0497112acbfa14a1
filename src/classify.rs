//! Classification of a raw link target by its syntax.
use vstd::prelude::*;

verus! {

/// Characters that HTML treats as whitespace.
pub open spec fn is_space(c: char) -> bool {
    c == ' ' || c == '\t' || c == '\n' || c == '\r' || c == '\x0C'
}

/// The target is empty or holds whitespace only.
pub open spec fn is_blank(s: Seq<char>) -> bool {
    forall|i: int| 0 <= i < s.len() ==> is_space(#[trigger] s[i])
}

pub open spec fn is_ascii_alpha(c: char) -> bool {
    ('a' <= c && c <= 'z') || ('A' <= c && c <= 'Z')
}

pub open spec fn is_scheme_char(c: char) -> bool {
    is_ascii_alpha(c) || ('0' <= c && c <= '9') || c == '+' || c == '-' || c == '.'
}

/// `s[..k]` is a URL scheme (a letter, then letters, digits, `+`, `-`, `.`)
/// and `s[k]` is the `:` that ends it.
pub open spec fn scheme_ends_at(s: Seq<char>, k: int) -> bool {
    1 <= k < s.len() && s[k] == ':' && is_ascii_alpha(s[0]) && forall|j: int|
        1 <= j < k ==> is_scheme_char(#[trigger] s[j])
}

/// The target opens with a URL scheme, so it is an absolute URL.
pub open spec fn has_scheme(s: Seq<char>) -> bool {
    exists|k: int| scheme_ends_at(s, k)
}

/// Whether `url::Url::parse` accepts the text as an absolute URL.
pub uninterp spec fn parses_as_absolute_url(s: Seq<char>) -> bool;

/// The target names a resource by an absolute URL: it opens with a scheme,
/// or the URL parser takes it for an absolute URL (which it does, for one,
/// after trimming surrounding spaces).
pub open spec fn is_absolute(s: Seq<char>) -> bool {
    has_scheme(s) || parses_as_absolute_url(s)
}

/// Relies on `url::Url::parse`, which returns `Ok` only where it can parse an
/// absolute URL from the text, and never panics.
#[verifier::external_body]
fn url_parses(s: &str) -> (r: bool)
    ensures
        r == parses_as_absolute_url(s@),
{
    url::Url::parse(s).is_ok()
}

/// `k` is the first position of `c` in `s`.
pub open spec fn first_at(s: Seq<char>, c: char, k: int) -> bool {
    0 <= k < s.len() && s[k] == c && forall|j: int| 0 <= j < k ==> s[j] != c
}

/// What a link target denotes, derived from its text.
#[derive(Debug)]
pub enum ReferenceKind {
    /// A file relative to the document holding the link.
    LocalFile { path: String },
    /// A file relative to the document, and an anchor inside it.
    LocalFileWithFragment { path: String, fragment: String },
    /// An anchor inside the document holding the link.
    FragmentOnly { fragment: String },
    /// A resource named by an absolute URL.
    AbsoluteExternal,
}

/// `r` is the classification of the raw target `s`: blank targets are no
/// references; then a leading `#`, then an absolute URL, then a `#` anywhere
/// decide.
pub open spec fn classified(s: Seq<char>, r: Option<ReferenceKind>) -> bool {
    match r {
        None => is_blank(s),
        Some(ReferenceKind::FragmentOnly { fragment }) => !is_blank(s) && s[0] == '#'
            && fragment@ == s.drop_first(),
        Some(ReferenceKind::AbsoluteExternal) => !is_blank(s) && s[0] != '#' && is_absolute(s),
        Some(ReferenceKind::LocalFileWithFragment { path, fragment }) => !is_blank(s) && s[0]
            != '#' && !is_absolute(s) && first_at(s, '#', path@.len() as int) && path@ == s.take(
            path@.len() as int,
        ) && fragment@ == s.skip(path@.len() as int + 1),
        Some(ReferenceKind::LocalFile { path }) => !is_blank(s) && s[0] != '#' && !is_absolute(s)
            && !s.contains('#') && path@ == s,
    }
}

fn is_space_char(c: char) -> (r: bool)
    ensures
        r == is_space(c),
{
    c == ' ' || c == '\t' || c == '\n' || c == '\r' || c == '\x0C'
}

fn is_alpha_char(c: char) -> (r: bool)
    ensures
        r == is_ascii_alpha(c),
{
    ('a' <= c && c <= 'z') || ('A' <= c && c <= 'Z')
}

fn is_scheme_char_exec(c: char) -> (r: bool)
    ensures
        r == is_scheme_char(c),
{
    is_alpha_char(c) || ('0' <= c && c <= '9') || c == '+' || c == '-' || c == '.'
}

/// Whether `s` is empty or whitespace only.
pub fn blank(s: &str) -> (r: bool)
    ensures
        r == is_blank(s@),
{
    let n = s.unicode_len();
    let mut i: usize = 0;
    while i < n && is_space_char(s.get_char(i))
        invariant
            i <= n,
            n == s@.len(),
            forall|j: int| 0 <= j < i ==> is_space(#[trigger] s@[j]),
        decreases n - i,
    {
        i += 1;
    }
    i == n
}

/// Whether `s` opens with a URL scheme followed by `:`.
pub fn starts_with_scheme(s: &str) -> (r: bool)
    ensures
        r == has_scheme(s@),
{
    let n = s.unicode_len();
    if n == 0 || !is_alpha_char(s.get_char(0)) {
        assert(forall|k: int| !scheme_ends_at(s@, k));
        return false;
    }
    let mut i: usize = 1;
    while i < n && is_scheme_char_exec(s.get_char(i))
        invariant
            1 <= i <= n,
            n == s@.len(),
            forall|j: int| 1 <= j < i ==> is_scheme_char(#[trigger] s@[j]),
        decreases n - i,
    {
        i += 1;
    }
    let r = i < n && s.get_char(i) == ':';
    if r {
        assert(scheme_ends_at(s@, i as int));
    } else {
        assert forall|k: int| !scheme_ends_at(s@, k) by {
            if scheme_ends_at(s@, k) {
                if k < i {
                    assert(is_scheme_char(s@[k]));
                } else if k > i {
                    assert(is_scheme_char(s@[i as int]));
                }
            }
        }
    }
    r
}

/// The first position of `c` in `s`, if any.
pub fn find_char(s: &str, c: char) -> (r: Option<usize>)
    ensures
        match r {
            Some(k) => first_at(s@, c, k as int),
            None => !s@.contains(c),
        },
{
    let n = s.unicode_len();
    let mut i: usize = 0;
    while i < n
        invariant
            i <= n,
            n == s@.len(),
            forall|j: int| 0 <= j < i ==> s@[j] != c,
        decreases n - i,
    {
        if s.get_char(i) == c {
            return Some(i);
        }
        i += 1;
    }
    None
}

/// Classifies a raw link target. Blank targets give `None`.
pub fn classify(raw: &str) -> (r: Option<ReferenceKind>)
    ensures
        classified(raw@, r),
{
    if blank(raw) {
        return None;
    }
    let n = raw.unicode_len();
    if raw.get_char(0) == '#' {
        let fragment = String::from_str(raw.substring_char(1, n));
        proof {
            assert(fragment@ =~= raw@.drop_first());
        }
        return Some(ReferenceKind::FragmentOnly { fragment });
    }
    if starts_with_scheme(raw) || url_parses(raw) {
        return Some(ReferenceKind::AbsoluteExternal);
    }
    match find_char(raw, '#') {
        Some(k) => {
            let path = String::from_str(raw.substring_char(0, k));
            let fragment = String::from_str(raw.substring_char(k + 1, n));
            proof {
                assert(path@ =~= raw@.take(k as int));
                assert(fragment@ =~= raw@.skip(k + 1));
            }
            Some(ReferenceKind::LocalFileWithFragment { path, fragment })
        },
        None => Some(ReferenceKind::LocalFile { path: String::from_str(raw) }),
    }
}

} // verus!
