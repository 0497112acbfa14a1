//! Where the documentation lies and which of its files are HTML documents.
use vstd::prelude::*;

verus! {

pub open spec fn html_suffix() -> Seq<char> {
    seq!['.', 'h', 't', 'm', 'l']
}

/// A file name with the extension `html`: something before the last `.`,
/// and `html` after it.
pub open spec fn is_html_name(name: Seq<char>) -> bool {
    name.len() > 5 && name.skip(name.len() - 5) == html_suffix()
}

/// The package name with each `-` written `_`, as rustdoc names its directory.
pub open spec fn underscored(name: Seq<char>) -> Seq<char> {
    name.map_values(|c: char| if c == '-' { '_' } else { c })
}

pub open spec fn doc_prefix() -> Seq<char> {
    seq!['t', 'a', 'r', 'g', 'e', 't', '/', 'd', 'o', 'c', '/']
}

/// Whether a file with this name is an HTML document to check.
pub fn is_html_file(file_name: &str) -> (r: bool)
    ensures
        r == is_html_name(file_name@),
{
    let n = file_name.unicode_len();
    if n <= 5 {
        return false;
    }
    let tail = file_name.substring_char(n - 5, n);
    let mut ok = true;
    let mut i: usize = 0;
    proof {
        reveal_strlit(".html");
        assert(".html"@ =~= html_suffix());
    }
    while i < 5
        invariant
            i <= 5,
            tail@.len() == 5,
            ".html"@ == html_suffix(),
            ok == (forall|j: int| 0 <= j < i ==> tail@[j] == html_suffix()[j]),
        decreases 5 - i,
    {
        if tail.get_char(i) != ".html".get_char(i) {
            ok = false;
        }
        i += 1;
    }
    proof {
        assert(tail@ == file_name@.skip(n - 5));
        if ok {
            assert(tail@ =~= html_suffix());
        }
    }
    ok
}

/// The default documentation directory of a package: `target/doc/` and the
/// package name with `-` written `_`.
pub fn default_doc_dir(package_name: &str) -> (r: String)
    ensures
        r@ == doc_prefix() + underscored(package_name@),
{
    let n = package_name.unicode_len();
    let mut out = String::from_str("target/doc/");
    let mut i: usize = 0;
    proof {
        reveal_strlit("target/doc/");
        reveal_strlit("_");
        assert("target/doc/"@ =~= doc_prefix());
        assert(underscored(package_name@.take(0)) =~= Seq::<char>::empty());
        assert(out@ =~= doc_prefix() + underscored(package_name@.take(0)));
    }
    while i < n
        invariant
            i <= n,
            n == package_name@.len(),
            "_"@ == seq!['_'],
            out@ == doc_prefix() + underscored(package_name@.take(i as int)),
        decreases n - i,
    {
        let c = package_name.get_char(i);
        let ghost before = out@;
        if c == '-' {
            out.append("_");
        } else {
            out.append(package_name.substring_char(i, i + 1));
        }
        proof {
            let c2: char = if c == '-' { '_' } else { c };
            assert(package_name@.subrange(i as int, i + 1) =~= seq![c]);
            assert(underscored(package_name@.take(i + 1)) =~= underscored(
                package_name@.take(i as int),
            ).push(c2));
            assert(out@ =~= before.push(c2));
        }
        i += 1;
    }
    proof {
        assert(package_name@.take(n as int) =~= package_name@);
    }
    out
}

} // verus!
