//! The outcome of a run: one diagnostic per broken reference, in order, and
//! a pass only when every reference is valid.
use vstd::prelude::*;
use crate::check::{BrokenReason, Verdict};
use crate::extract::Reference;

verus! {

/// A broken reference, with what is needed to find and fix it.
#[derive(Debug, Clone)]
pub struct Diagnostic {
    pub source_document: String,
    pub raw_target: String,
    pub reason: BrokenReason,
}

/// Document, target and reason of each broken reference, in order.
pub open spec fn broken_of(refs: Seq<Reference>, verdicts: Seq<Verdict>) -> Seq<
    (Seq<char>, Seq<char>, BrokenReason),
>
    decreases verdicts.len(),
{
    if verdicts.len() == 0 || refs.len() == 0 {
        Seq::empty()
    } else {
        let rest = broken_of(refs.drop_last(), verdicts.drop_last());
        match verdicts.last() {
            Verdict::Valid => rest,
            Verdict::Broken(b) => rest.push((refs.last().source_document@, refs.last().raw_target@, b)),
        }
    }
}

pub open spec fn diagnostics_view(d: Seq<Diagnostic>) -> Seq<(Seq<char>, Seq<char>, BrokenReason)> {
    d.map_values(|x: Diagnostic| (x.source_document@, x.raw_target@, x.reason))
}

/// Every verdict is `Valid`.
pub open spec fn all_valid(verdicts: Seq<Verdict>) -> bool {
    forall|i: int| 0 <= i < verdicts.len() ==> verdicts[i] == Verdict::Valid
}

/// The diagnostics of a run: `verdicts[i]` is the verdict on `refs[i]`.
pub fn diagnostics(refs: &Vec<Reference>, verdicts: &Vec<Verdict>) -> (r: Vec<Diagnostic>)
    requires
        refs.len() == verdicts.len(),
    ensures
        diagnostics_view(r@) == broken_of(refs@, verdicts@),
{
    let mut out: Vec<Diagnostic> = Vec::new();
    let mut i: usize = 0;
    proof {
        assert(refs@.take(0) =~= Seq::<Reference>::empty());
        assert(diagnostics_view(out@) =~= Seq::<(Seq<char>, Seq<char>, BrokenReason)>::empty());
    }
    while i < verdicts.len()
        invariant
            i <= verdicts.len(),
            refs.len() == verdicts.len(),
            diagnostics_view(out@) == broken_of(refs@.take(i as int), verdicts@.take(i as int)),
        decreases verdicts.len() - i,
    {
        proof {
            assert(refs@.take(i + 1).drop_last() =~= refs@.take(i as int));
            assert(verdicts@.take(i + 1).drop_last() =~= verdicts@.take(i as int));
            assert(refs@.take(i + 1).last() == refs@[i as int]);
            assert(verdicts@.take(i + 1).last() == verdicts@[i as int]);
        }
        match verdicts[i] {
            Verdict::Valid => {},
            Verdict::Broken(reason) => {
                let ghost before = out@;
                out.push(
                    Diagnostic {
                        source_document: refs[i].source_document.clone(),
                        raw_target: refs[i].raw_target.clone(),
                        reason,
                    },
                );
                proof {
                    assert(diagnostics_view(out@) =~= diagnostics_view(before).push(
                        (refs@[i as int].source_document@, refs@[i as int].raw_target@, reason),
                    ));
                }
            },
        }
        i += 1;
    }
    proof {
        assert(refs@.take(i as int) =~= refs@);
        assert(verdicts@.take(i as int) =~= verdicts@);
    }
    out
}

/// Whether the run passes: every verdict is `Valid`.
pub fn run_passed(verdicts: &Vec<Verdict>) -> (r: bool)
    ensures
        r == all_valid(verdicts@),
{
    let mut i: usize = 0;
    while i < verdicts.len()
        invariant
            i <= verdicts.len(),
            forall|j: int| 0 <= j < i ==> verdicts@[j] == Verdict::Valid,
        decreases verdicts.len() - i,
    {
        if verdicts[i] != Verdict::Valid {
            return false;
        }
        i += 1;
    }
    true
}

/// The process status for a run: zero when it passed, one when it failed.
pub fn exit_status(passed: bool) -> (r: i32)
    ensures
        r == (if passed {
            0i32
        } else {
            1i32
        }),
{
    if passed {
        0
    } else {
        1
    }
}

} // verus!
