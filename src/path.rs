//! Paths relative to the documentation root, written with `/` separators.
//!
//! A path is split into segments at each `/`. Resolution walks the segments:
//! empty segments and `.` are skipped, `..` leaves the last directory, and a
//! `..` with no directory left would leave the root, so the path is not
//! resolved at all.
use vstd::prelude::*;
use crate::extract::same_text;

verus! {

/// The segments of `s` between its `/` separators (one more than there are `/`).
pub open spec fn split_path(s: Seq<char>) -> Seq<Seq<char>>
    decreases s.len(),
{
    if s.len() == 0 {
        seq![Seq::empty()]
    } else {
        let p = split_path(s.drop_last());
        if s.last() == '/' {
            p.push(Seq::empty())
        } else {
            p.update(p.len() - 1, p.last().push(s.last()))
        }
    }
}

/// The segments joined back with `/`.
pub open spec fn join_path(segs: Seq<Seq<char>>) -> Seq<char>
    decreases segs.len(),
{
    if segs.len() == 0 {
        Seq::empty()
    } else if segs.len() == 1 {
        segs[0]
    } else {
        join_path(segs.drop_last()) + seq!['/'] + segs.last()
    }
}

/// One segment applied to the directory `dir`; `None` when `..` leaves the root.
pub open spec fn step(dir: Seq<Seq<char>>, seg: Seq<char>) -> Option<Seq<Seq<char>>> {
    if seg.len() == 0 || seg == seq!['.'] {
        Some(dir)
    } else if seg == seq!['.', '.'] {
        if dir.len() == 0 {
            None
        } else {
            Some(dir.drop_last())
        }
    } else {
        Some(dir.push(seg))
    }
}

/// The segments applied in order, starting at the root.
pub open spec fn walk(segs: Seq<Seq<char>>) -> Option<Seq<Seq<char>>>
    decreases segs.len(),
{
    if segs.len() == 0 {
        Some(Seq::empty())
    } else {
        match walk(segs.drop_last()) {
            None => None,
            Some(dir) => step(dir, segs.last()),
        }
    }
}

/// The normalized segments of `target`, taken relative to the directory
/// that holds the document `source`.
pub open spec fn resolved_segments(source: Seq<char>, target: Seq<char>) -> Option<Seq<Seq<char>>> {
    walk(split_path(source).drop_last() + split_path(target))
}

/// The normalized path of `target`, taken relative to the directory that
/// holds the document `source`; `None` when it would leave the root.
pub open spec fn resolved_path(source: Seq<char>, target: Seq<char>) -> Option<Seq<char>> {
    match resolved_segments(source, target) {
        None => None,
        Some(segs) => Some(join_path(segs)),
    }
}

pub open spec fn segments_view(v: Seq<String>) -> Seq<Seq<char>> {
    v.map_values(|s: String| s@)
}

pub open spec fn option_view(o: Option<String>) -> Option<Seq<char>> {
    match o {
        None => None,
        Some(s) => Some(s@),
    }
}

/// Splits `s` at each `/`.
pub fn split(s: &str) -> (r: Vec<String>)
    ensures
        segments_view(r@) == split_path(s@),
        r@.len() >= 1,
{
    let n = s.unicode_len();
    let mut segs: Vec<String> = Vec::new();
    let mut start: usize = 0;
    let mut i: usize = 0;
    proof {
        assert(s@.take(0) =~= Seq::<char>::empty());
        assert(s@.subrange(0, 0) =~= Seq::<char>::empty());
        assert(segments_view(segs@) =~= Seq::<Seq<char>>::empty());
    }
    while i < n
        invariant
            start <= i <= n,
            n == s@.len(),
            split_path(s@.take(i as int)) == segments_view(segs@).push(
                s@.subrange(start as int, i as int),
            ),
        decreases n - i,
    {
        let c = s.get_char(i);
        proof {
            assert(s@.take(i + 1).drop_last() =~= s@.take(i as int));
            assert(s@.take(i + 1).last() == c);
        }
        if c == '/' {
            let seg = String::from_str(s.substring_char(start, i));
            let ghost before = segs@;
            segs.push(seg);
            start = i + 1;
            proof {
                assert(s@.subrange(start as int, start as int) =~= Seq::<char>::empty());
                assert(segments_view(segs@) =~= segments_view(before).push(seg@));
            }
        } else {
            proof {
                assert(s@.subrange(start as int, i as int).push(c) =~= s@.subrange(
                    start as int,
                    i + 1,
                ));
                let v = segments_view(segs@);
                let sub = s@.subrange(start as int, i as int);
                assert(v.push(sub).update(v.len() as int, sub.push(c)) =~= v.push(sub.push(c)));
            }
        }
        i += 1;
    }
    let last = String::from_str(s.substring_char(start, n));
    let ghost before = segs@;
    segs.push(last);
    proof {
        assert(s@.take(n as int) =~= s@);
        assert(segments_view(segs@) =~= segments_view(before).push(last@));
    }
    segs
}

/// Applies the segments in order, starting at the root.
pub fn walk_segments(segs: &Vec<String>) -> (r: Option<Vec<String>>)
    ensures
        match r {
            None => walk(segments_view(segs@)) is None,
            Some(d) => walk(segments_view(segs@)) == Some(segments_view(d@)),
        },
{
    let ghost sv = segments_view(segs@);
    let mut dir: Vec<String> = Vec::new();
    let mut i: usize = 0;
    proof {
        assert(sv.take(0) =~= Seq::<Seq<char>>::empty());
        assert(segments_view(dir@) =~= Seq::<Seq<char>>::empty());
    }
    while i < segs.len()
        invariant
            i <= segs.len(),
            sv == segments_view(segs@),
            walk(sv.take(i as int)) == Some(segments_view(dir@)),
        decreases segs.len() - i,
    {
        let seg = &segs[i];
        proof {
            assert(sv.take(i + 1).drop_last() =~= sv.take(i as int));
            assert(sv.take(i + 1).last() == seg@);
            reveal_strlit(".");
            reveal_strlit("..");
            assert("."@ =~= seq!['.']);
            assert(".."@ =~= seq!['.', '.']);
        }
        if seg.as_str().unicode_len() == 0 || same_text(seg, ".") {
            proof {
                assert(seg@.len() == 0 || seg@ =~= seq!['.']);
            }
        } else if same_text(seg, "..") {
            proof {
                assert(seg@ =~= seq!['.', '.']);
            }
            if dir.len() == 0 {
                proof {
                    assert(walk(sv.take(i + 1)) is None);
                    lemma_walk_none_prefix(sv, i + 1);
                }
                return None;
            }
            let ghost before = dir@;
            dir.pop();
            proof {
                assert(segments_view(dir@) =~= segments_view(before).drop_last());
            }
        } else {
            proof {
                assert(seg@.len() != 0);
                assert(seg@ != seq!['.']);
                assert(seg@ != seq!['.', '.']);
            }
            let ghost before = dir@;
            dir.push(seg.clone());
            proof {
                assert(segments_view(dir@) =~= segments_view(before).push(seg@));
            }
        }
        i += 1;
    }
    proof {
        assert(sv.take(segs.len() as int) =~= sv);
    }
    Some(dir)
}

/// Once a walk leaves the root, every longer walk has left it too.
proof fn lemma_walk_none_prefix(s: Seq<Seq<char>>, k: int)
    requires
        0 <= k <= s.len(),
        walk(s.take(k)) is None,
    ensures
        walk(s) is None,
    decreases s.len() - k,
{
    if k < s.len() {
        assert(s.take(k + 1).drop_last() =~= s.take(k));
        lemma_walk_none_prefix(s, k + 1);
    } else {
        assert(s.take(k) =~= s);
    }
}

/// Joins the segments with `/`.
pub fn join(segs: &Vec<String>) -> (r: String)
    ensures
        r@ == join_path(segments_view(segs@)),
{
    let ghost sv = segments_view(segs@);
    let mut out = String::new();
    let mut i: usize = 0;
    proof {
        assert(sv.take(0) =~= Seq::<Seq<char>>::empty());
    }
    while i < segs.len()
        invariant
            i <= segs.len(),
            sv == segments_view(segs@),
            out@ == join_path(sv.take(i as int)),
        decreases segs.len() - i,
    {
        proof {
            assert(sv.take(i + 1).drop_last() =~= sv.take(i as int));
            assert(sv.take(i + 1).last() == segs@[i as int]@);
            reveal_strlit("/");
        }
        if i > 0 {
            out.append("/");
        } else {
            assert(out@ + segs@[0]@ =~= segs@[0]@);
        }
        out.append(segs[i].as_str());
        i += 1;
    }
    proof {
        assert(sv.take(segs.len() as int) =~= sv);
    }
    out
}

/// The normalized path of `target` relative to the directory that holds the
/// document `source`, or `None` when it would leave the root.
pub fn resolve(source: &str, target: &str) -> (r: Option<String>)
    ensures
        option_view(r) == resolved_path(source@, target@),
{
    let mut segs = split(source);
    let ghost src = segments_view(segs@);
    let ghost whole = segs@;
    segs.pop();
    proof {
        assert(segments_view(segs@) =~= src.drop_last());
    }
    let rel = split(target);
    let mut i: usize = 0;
    let ghost base = segs@;
    while i < rel.len()
        invariant
            i <= rel.len(),
            segs@ == base + rel@.take(i as int),
        decreases rel.len() - i,
    {
        segs.push(rel[i].clone());
        proof {
            assert(rel@.take(i + 1) =~= rel@.take(i as int).push(rel@[i as int]));
            assert(segs@ =~= base + rel@.take(i + 1));
        }
        i += 1;
    }
    proof {
        assert(rel@.take(rel.len() as int) =~= rel@);
        assert(segments_view(segs@) =~= segments_view(base) + segments_view(rel@));
    }
    match walk_segments(&segs) {
        None => None,
        Some(d) => Some(join(&d)),
    }
}

} // verus!
