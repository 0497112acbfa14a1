//! Verdicts on references.
//!
//! Local targets are checked against a snapshot of the documentation tree:
//! the files under the root, by normalized path, each with the anchors it
//! defines when it was read as HTML. Anchors match by exact text: case
//! counts and percent-escapes are not decoded. External targets are looked
//! up in the shared store; on a miss the check asks for a probe of the key.
use vstd::prelude::*;
use crate::classify::{classify, classified, is_absolute, is_blank, ReferenceKind};
use crate::path::{resolve, resolved_path, option_view};
use crate::extract::{same_text, strings_view, Reference};
use crate::cache::{normalize_url, url_key, without_fragment, ExternalCache};

verus! {

/// Why a reference is broken.
#[derive(Debug, Clone, Copy, PartialEq, Eq, Structural)]
pub enum BrokenReason {
    /// The target file does not exist, cannot be read, or lies above the root.
    BrokenPath,
    /// The target file exists but does not define the anchor.
    BrokenAnchor,
    /// The external resource did not answer with a success status.
    BrokenExternal,
}

/// The outcome for one reference.
#[derive(Debug, Clone, Copy, PartialEq, Eq, Structural)]
pub enum Verdict {
    Valid,
    Broken(BrokenReason),
}

/// One file under the root: its path, and its anchors if it was read as HTML.
#[derive(Debug, Clone)]
pub struct DocFile {
    pub path: String,
    pub anchors: Option<Vec<String>>,
}

/// The files under the documentation root.
#[derive(Debug, Clone)]
pub struct DocTree {
    pub files: Vec<DocFile>,
}

/// What the check of one reference leads to.
#[derive(Debug, Clone)]
pub enum Check {
    /// The target is blank: no reference.
    Skip,
    /// The verdict is known.
    Done(Verdict),
    /// The external URL with this key has no result yet: probe it and hand the
    /// result to `settle_probe`, which records it and gives the verdict.
    Probe { key: String },
}

/// The target is an absolute URL.
pub open spec fn is_external(raw: Seq<char>) -> bool {
    !is_blank(raw) && raw[0] != '#' && is_absolute(raw)
}

/// The path that a local target names, or `None` when it leaves the root.
pub open spec fn local_path(source: Seq<char>, raw: Seq<char>) -> Option<Seq<char>> {
    if raw[0] == '#' {
        Some(source)
    } else {
        resolved_path(source, without_fragment(raw))
    }
}

/// The anchor that a local target names, if any.
pub open spec fn local_fragment(raw: Seq<char>) -> Option<Seq<char>> {
    if raw[0] == '#' {
        Some(raw.drop_first())
    } else if raw.contains('#') {
        Some(raw.skip(without_fragment(raw).len() as int + 1))
    } else {
        None
    }
}

/// The position of the last file whose path is `p`.
pub open spec fn file_index(files: Seq<DocFile>, p: Seq<char>) -> Option<int>
    decreases files.len(),
{
    if files.len() == 0 {
        None
    } else if files.last().path@ == p {
        Some(files.len() - 1)
    } else {
        file_index(files.drop_last(), p)
    }
}

/// The verdict on a local target: the file must exist; with an anchor, the
/// file must have been read and define it.
pub open spec fn target_verdict(
    files: Seq<DocFile>,
    path: Option<Seq<char>>,
    fragment: Option<Seq<char>>,
) -> Verdict {
    match path {
        None => Verdict::Broken(BrokenReason::BrokenPath),
        Some(p) => match file_index(files, p) {
            None => Verdict::Broken(BrokenReason::BrokenPath),
            Some(i) => match fragment {
                None => Verdict::Valid,
                Some(f) => match files[i].anchors {
                    None => Verdict::Broken(BrokenReason::BrokenPath),
                    Some(a) => if strings_view(a@).contains(f) {
                        Verdict::Valid
                    } else {
                        Verdict::Broken(BrokenReason::BrokenAnchor)
                    },
                },
            },
        },
    }
}

pub open spec fn reach_verdict(reachable: bool) -> Verdict {
    if reachable {
        Verdict::Valid
    } else {
        Verdict::Broken(BrokenReason::BrokenExternal)
    }
}

/// `r` is the check of target `raw` found in document `source`, against the
/// files `files` and the stored external results `cache`.
pub open spec fn checked(
    files: Seq<DocFile>,
    cache: Map<Seq<char>, bool>,
    source: Seq<char>,
    raw: Seq<char>,
    r: Check,
) -> bool {
    match r {
        Check::Skip => is_blank(raw),
        Check::Done(v) => !is_blank(raw) && if is_external(raw) {
            cache.contains_key(url_key(raw)) && v == reach_verdict(cache[url_key(raw)])
        } else {
            v == target_verdict(files, local_path(source, raw), local_fragment(raw))
        },
        Check::Probe { key } => is_external(raw) && !cache.contains_key(url_key(raw)) && key@
            == url_key(raw),
    }
}

/// The verdict on an external URL from the result of its probe.
pub fn reachability_verdict(reachable: bool) -> (r: Verdict)
    ensures
        r == reach_verdict(reachable),
{
    if reachable {
        Verdict::Valid
    } else {
        Verdict::Broken(BrokenReason::BrokenExternal)
    }
}

/// Whether `f` is one of `anchors`.
pub fn has_anchor(anchors: &Vec<String>, f: &str) -> (r: bool)
    ensures
        r == strings_view(anchors@).contains(f@),
{
    let mut i: usize = 0;
    while i < anchors.len()
        invariant
            i <= anchors.len(),
            forall|j: int| 0 <= j < i ==> anchors@[j]@ != f@,
        decreases anchors.len() - i,
    {
        if same_text(&anchors[i], f) {
            assert(strings_view(anchors@)[i as int] == f@);
            return true;
        }
        i += 1;
    }
    assert forall|j: int| 0 <= j < strings_view(anchors@).len() implies strings_view(
        anchors@,
    )[j] != f@ by {
        assert(strings_view(anchors@)[j] == anchors@[j]@);
    }
    false
}

impl DocTree {
    /// The position of the last file whose path is `p`.
    pub fn find(&self, p: &str) -> (r: Option<usize>)
        ensures
            match r {
                None => file_index(self.files@, p@) is None,
                Some(i) => file_index(self.files@, p@) == Some(i as int) && i < self.files.len(),
            },
    {
        let mut found: Option<usize> = None;
        let mut i: usize = 0;
        proof {
            assert(self.files@.take(0) =~= Seq::<DocFile>::empty());
        }
        while i < self.files.len()
            invariant
                i <= self.files.len(),
                match found {
                    None => file_index(self.files@.take(i as int), p@) is None,
                    Some(k) => file_index(self.files@.take(i as int), p@) == Some(k as int) && k
                        < i,
                },
            decreases self.files.len() - i,
        {
            proof {
                assert(self.files@.take(i + 1).drop_last() =~= self.files@.take(i as int));
                assert(self.files@.take(i + 1).last() == self.files@[i as int]);
            }
            if same_text(&self.files[i].path, p) {
                found = Some(i);
            }
            i += 1;
        }
        proof {
            assert(self.files@.take(self.files.len() as int) =~= self.files@);
        }
        found
    }

    /// The verdict on a local target with normalized path `path` (`None` when
    /// it leaves the root) and anchor `fragment`.
    pub fn target(&self, path: Option<String>, fragment: Option<String>) -> (r: Verdict)
        ensures
            r == target_verdict(self.files@, option_view(path), option_view(fragment)),
    {
        match path {
            None => Verdict::Broken(BrokenReason::BrokenPath),
            Some(p) => match self.find(p.as_str()) {
                None => Verdict::Broken(BrokenReason::BrokenPath),
                Some(i) => match fragment {
                    None => Verdict::Valid,
                    Some(f) => match &self.files[i].anchors {
                        None => Verdict::Broken(BrokenReason::BrokenPath),
                        Some(a) => if has_anchor(a, f.as_str()) {
                            Verdict::Valid
                        } else {
                            Verdict::Broken(BrokenReason::BrokenAnchor)
                        },
                    },
                },
            },
        }
    }

    /// Checks one reference: a verdict, no reference, or a probe to make.
    pub fn check_reference(&self, cache: &ExternalCache, reference: &Reference) -> (r: Check)
        requires
            cache.wf(),
        ensures
            checked(self.files@, cache@, reference.source_document@, reference.raw_target@, r),
    {
        let raw = reference.raw_target.as_str();
        let source = &reference.source_document;
        let kind = classify(raw);
        proof {
            assert(classified(raw@, kind));
        }
        match kind {
            None => Check::Skip,
            Some(ReferenceKind::AbsoluteExternal) => {
                let key = normalize_url(raw);
                match cache.lookup(key.as_str()) {
                    Some(ok) => Check::Done(reachability_verdict(ok)),
                    None => Check::Probe { key },
                }
            },
            Some(ReferenceKind::FragmentOnly { fragment }) => {
                Check::Done(self.target(Some(source.clone()), Some(fragment)))
            },
            Some(ReferenceKind::LocalFileWithFragment { path, fragment }) => {
                proof {
                    let k = path@.len() as int;
                    assert(raw@[k] == '#');
                    assert(raw@.contains('#'));
                    let c = choose|j: int| crate::classify::first_at(raw@, '#', j);
                    assert(crate::classify::first_at(raw@, '#', c));
                    assert(c == k);
                    assert(without_fragment(raw@) == path@);
                }
                let resolved = resolve(source.as_str(), path.as_str());
                Check::Done(self.target(resolved, Some(fragment)))
            },
            Some(ReferenceKind::LocalFile { path }) => {
                let resolved = resolve(source.as_str(), path.as_str());
                Check::Done(self.target(resolved, None))
            },
        }
    }

    /// Checks every reference, in order: the run goes on past broken ones.
    pub fn check_all(&self, cache: &ExternalCache, refs: &Vec<Reference>) -> (r: Vec<Check>)
        requires
            cache.wf(),
        ensures
            r@.len() == refs@.len(),
            forall|i: int|
                0 <= i < r@.len() ==> checked(
                    self.files@,
                    cache@,
                    refs@[i].source_document@,
                    refs@[i].raw_target@,
                    #[trigger] r@[i],
                ),
    {
        let mut out: Vec<Check> = Vec::new();
        let mut i: usize = 0;
        while i < refs.len()
            invariant
                i <= refs.len(),
                cache.wf(),
                out@.len() == i,
                forall|j: int|
                    0 <= j < i ==> checked(
                        self.files@,
                        cache@,
                        refs@[j].source_document@,
                        refs@[j].raw_target@,
                        #[trigger] out@[j],
                    ),
            decreases refs.len() - i,
        {
            let c = self.check_reference(cache, &refs[i]);
            out.push(c);
            i += 1;
        }
        out
    }
}

} // verus!

verus! {

/// Records the result of a probe of `key` and returns the verdict that the
/// store now holds for it: the first result recorded for a key wins.
pub fn settle_probe(cache: &mut ExternalCache, key: &str, reachable: bool) -> (r: Verdict)
    requires
        old(cache).wf(),
    ensures
        final(cache).wf(),
        final(cache)@ == crate::cache::recorded(old(cache)@, key@, reachable),
        r == reach_verdict(final(cache)@[key@]),
{
    let ok = cache.record(key, reachable);
    reachability_verdict(ok)
}

} // verus!
