//! Properties of the checks, stated over their specifications and proved.
use vstd::prelude::*;
use crate::cache::{recorded, url_key};
use crate::check::{
    checked, file_index, is_external, local_fragment, local_path, reach_verdict, BrokenReason,
    Check, DocFile, Verdict,
};
use crate::classify::is_blank;
use crate::extract::strings_view;
use crate::report::{all_valid, broken_of};

verus! {

/// A local reference whose path names a file of the tree, and whose anchor,
/// if it has one, that file defines, is valid.
pub proof fn lemma_local_target_valid(
    files: Seq<DocFile>,
    cache: Map<Seq<char>, bool>,
    source: Seq<char>,
    raw: Seq<char>,
    p: Seq<char>,
    i: int,
    r: Check,
)
    requires
        !is_blank(raw),
        !is_external(raw),
        local_path(source, raw) == Some(p),
        file_index(files, p) == Some(i),
        match local_fragment(raw) {
            None => true,
            Some(f) => files[i].anchors matches Some(a) && strings_view(a@).contains(f),
        },
        checked(files, cache, source, raw, r),
    ensures
        r == Check::Done(Verdict::Valid),
{
}

/// A local reference whose path names no file of the tree, or lies above its
/// root, is broken with `BrokenPath`.
pub proof fn lemma_missing_target_broken(
    files: Seq<DocFile>,
    cache: Map<Seq<char>, bool>,
    source: Seq<char>,
    raw: Seq<char>,
    r: Check,
)
    requires
        !is_blank(raw),
        !is_external(raw),
        match local_path(source, raw) {
            None => true,
            Some(p) => file_index(files, p) is None,
        },
        checked(files, cache, source, raw, r),
    ensures
        r == Check::Done(Verdict::Broken(BrokenReason::BrokenPath)),
{
}

/// A local reference to an anchor that its target file does not define is
/// broken with `BrokenAnchor`.
pub proof fn lemma_missing_anchor_broken(
    files: Seq<DocFile>,
    cache: Map<Seq<char>, bool>,
    source: Seq<char>,
    raw: Seq<char>,
    p: Seq<char>,
    i: int,
    f: Seq<char>,
    r: Check,
)
    requires
        !is_blank(raw),
        !is_external(raw),
        local_path(source, raw) == Some(p),
        file_index(files, p) == Some(i),
        local_fragment(raw) == Some(f),
        files[i].anchors matches Some(a) && !strings_view(a@).contains(f),
        checked(files, cache, source, raw, r),
    ensures
        r == Check::Done(Verdict::Broken(BrokenReason::BrokenAnchor)),
{
}

/// Checking a reference twice against the same tree and the same store gives
/// the same outcome.
pub proof fn lemma_check_deterministic(
    files: Seq<DocFile>,
    cache: Map<Seq<char>, bool>,
    source: Seq<char>,
    raw: Seq<char>,
    r1: Check,
    r2: Check,
)
    requires
        checked(files, cache, source, raw, r1),
        checked(files, cache, source, raw, r2),
    ensures
        match (r1, r2) {
            (Check::Skip, Check::Skip) => true,
            (Check::Done(a), Check::Done(b)) => a == b,
            (Check::Probe { key: k1 }, Check::Probe { key: k2 }) => k1@ == k2@,
            _ => false,
        },
{
}

/// Recording a result never changes one that the store holds.
pub proof fn lemma_recorded_result_stays(
    m: Map<Seq<char>, bool>,
    key: Seq<char>,
    other: Seq<char>,
    reachable: bool,
)
    requires
        m.contains_key(key),
    ensures
        recorded(m, other, reachable).contains_key(key),
        recorded(m, other, reachable)[key] == m[key],
{
}

/// Once a result is recorded for a key, every reference whose URL has that
/// key gets the verdict of that result, without a new probe.
pub proof fn lemma_shared_external_verdict(
    files: Seq<DocFile>,
    m: Map<Seq<char>, bool>,
    key: Seq<char>,
    reachable: bool,
    source: Seq<char>,
    raw: Seq<char>,
    r: Check,
)
    requires
        is_external(raw),
        url_key(raw) == key,
        checked(files, recorded(m, key, reachable), source, raw, r),
    ensures
        r == Check::Done(reach_verdict(recorded(m, key, reachable)[key])),
{
}

/// A run passes exactly when it yields no diagnostics.
pub proof fn lemma_passed_iff_no_diagnostics(refs: Seq<crate::extract::Reference>, verdicts: Seq<Verdict>)
    requires
        refs.len() == verdicts.len(),
    ensures
        all_valid(verdicts) <==> broken_of(refs, verdicts).len() == 0,
    decreases verdicts.len(),
{
    if verdicts.len() > 0 {
        let rv = refs.drop_last();
        let vv = verdicts.drop_last();
        lemma_passed_iff_no_diagnostics(rv, vv);
        if all_valid(verdicts) {
            assert(verdicts.last() == Verdict::Valid);
            assert forall|i: int| 0 <= i < vv.len() implies vv[i] == Verdict::Valid by {
                assert(vv[i] == verdicts[i]);
            }
        } else if broken_of(refs, verdicts).len() == 0 {
            assert(verdicts.last() == Verdict::Valid);
            assert(all_valid(vv));
            assert forall|i: int| 0 <= i < verdicts.len() implies verdicts[i] == Verdict::Valid by {
                if i < vv.len() {
                    assert(vv[i] == verdicts[i]);
                }
            }
        }
    }
}

} // verus!
