//! Reachability results of external URLs, shared by every check of one run.
//!
//! Each URL is reduced to a key first: the fragment is dropped (anchors of
//! remote pages are not checked) and one trailing `/` is removed. The first
//! result recorded for a key stays: later results for it are ignored, so all
//! references to one URL get the same verdict.
use vstd::prelude::*;
use crate::classify::{find_char, first_at};
use crate::extract::same_text;

verus! {

/// The URL up to its first `#`.
pub open spec fn without_fragment(u: Seq<char>) -> Seq<char> {
    if u.contains('#') {
        u.take(choose|k: int| first_at(u, '#', k))
    } else {
        u
    }
}

/// The cache key of a URL: no fragment, and no trailing `/`.
pub open spec fn url_key(u: Seq<char>) -> Seq<char> {
    let b = without_fragment(u);
    if b.len() > 0 && b.last() == '/' {
        b.drop_last()
    } else {
        b
    }
}

/// The store after a result is recorded: a key that has a result keeps it.
pub open spec fn recorded(m: Map<Seq<char>, bool>, key: Seq<char>, reachable: bool) -> Map<
    Seq<char>,
    bool,
> {
    if m.contains_key(key) {
        m
    } else {
        m.insert(key, reachable)
    }
}

/// The cache key of `url`.
pub fn normalize_url(url: &str) -> (r: String)
    ensures
        r@ == url_key(url@),
{
    let n = url.unicode_len();
    let end = match find_char(url, '#') {
        Some(k) => {
            proof {
                let c = choose|j: int| first_at(url@, '#', j);
                assert(first_at(url@, '#', c));
                assert(c == k);
            }
            k
        },
        None => n,
    };
    proof {
        if end == n {
            assert(url@.take(n as int) =~= url@);
        }
    }
    if end > 0 && url.get_char(end - 1) == '/' {
        let r = String::from_str(url.substring_char(0, end - 1));
        proof {
            assert(r@ =~= url@.take(end as int).drop_last());
        }
        r
    } else {
        let r = String::from_str(url.substring_char(0, end));
        proof {
            assert(r@ =~= url@.take(end as int));
        }
        r
    }
}

/// `s` begins with `p`.
pub open spec fn has_prefix(s: Seq<char>, p: Seq<char>) -> bool {
    s.len() >= p.len() && s.take(p.len() as int) == p
}

/// An `http://` or `https://` URL: the ones that a network probe can reach.
/// Other schemes (`mailto:`, `ftp:`) are taken as valid without a probe.
pub open spec fn is_web(u: Seq<char>) -> bool {
    has_prefix(u, seq!['h', 't', 't', 'p', ':', '/', '/']) || has_prefix(
        u,
        seq!['h', 't', 't', 'p', 's', ':', '/', '/'],
    )
}

/// Whether `s` begins with `p`.
pub fn starts_with(s: &str, p: &str) -> (r: bool)
    ensures
        r == has_prefix(s@, p@),
{
    let m = p.unicode_len();
    if s.unicode_len() < m {
        return false;
    }
    let mut i: usize = 0;
    while i < m
        invariant
            i <= m,
            m == p@.len(),
            m <= s@.len(),
            forall|j: int| 0 <= j < i ==> s@[j] == p@[j],
        decreases m - i,
    {
        if s.get_char(i) != p.get_char(i) {
            assert(s@.take(m as int)[i as int] != p@[i as int]);
            return false;
        }
        i += 1;
    }
    assert(s@.take(m as int) =~= p@);
    true
}

/// Whether `u` is an `http://` or `https://` URL.
pub fn is_web_url(u: &str) -> (r: bool)
    ensures
        r == is_web(u@),
{
    proof {
        reveal_strlit("http://");
        reveal_strlit("https://");
        assert("http://"@ =~= seq!['h', 't', 't', 'p', ':', '/', '/']);
        assert("https://"@ =~= seq!['h', 't', 't', 'p', 's', ':', '/', '/']);
    }
    starts_with(u, "http://") || starts_with(u, "https://")
}

/// One recorded result.
#[derive(Debug, Clone)]
pub struct CacheEntry {
    pub key: String,
    pub reachable: bool,
}

pub open spec fn entries_map(s: Seq<CacheEntry>) -> Map<Seq<char>, bool>
    decreases s.len(),
{
    if s.len() == 0 {
        Map::empty()
    } else {
        entries_map(s.drop_last()).insert(s.last().key@, s.last().reachable)
    }
}

pub open spec fn keys_unique(s: Seq<CacheEntry>) -> bool {
    forall|i: int, j: int| 0 <= i < j < s.len() ==> s[i].key@ != s[j].key@
}

proof fn lemma_entries_map(s: Seq<CacheEntry>)
    requires
        keys_unique(s),
    ensures
        forall|k: Seq<char>|
            #[trigger] entries_map(s).contains_key(k) <==> exists|i: int|
                0 <= i < s.len() && s[i].key@ == k,
        forall|i: int| 0 <= i < s.len() ==> entries_map(s)[#[trigger] s[i].key@] == s[i].reachable,
    decreases s.len(),
{
    if s.len() > 0 {
        let p = s.drop_last();
        assert(keys_unique(p));
        lemma_entries_map(p);
        assert(entries_map(s) == entries_map(p).insert(s.last().key@, s.last().reachable));
        assert forall|k: Seq<char>|
            #[trigger] entries_map(s).contains_key(k) <==> exists|i: int|
                0 <= i < s.len() && s[i].key@ == k by {
            if entries_map(s).contains_key(k) && k != s.last().key@ {
                assert(entries_map(p).contains_key(k));
                let i = choose|i: int| 0 <= i < p.len() && p[i].key@ == k;
                assert(p[i] == s[i]);
                assert(s[i].key@ == k);
            }
            if exists|i: int| 0 <= i < s.len() && s[i].key@ == k {
                let i = choose|i: int| 0 <= i < s.len() && s[i].key@ == k;
                if i < p.len() {
                    assert(p[i] == s[i]);
                    assert(p[i].key@ == k);
                }
            }
        }
        assert forall|i: int| 0 <= i < s.len() implies entries_map(s)[#[trigger] s[i].key@]
            == s[i].reachable by {
            if i < p.len() {
                assert(p[i].key@ == s[i].key@);
            }
        }
    }
}

/// Reachability results by URL key; wrap it in a lock to share it between threads.
#[derive(Debug, Clone)]
pub struct ExternalCache {
    entries: Vec<CacheEntry>,
}

impl View for ExternalCache {
    type V = Map<Seq<char>, bool>;

    closed spec fn view(&self) -> Map<Seq<char>, bool> {
        entries_map(self.entries@)
    }
}

impl ExternalCache {
    /// Each key is held once.
    pub closed spec fn wf(&self) -> bool {
        keys_unique(self.entries@)
    }

    /// An empty store.
    pub fn new() -> (r: ExternalCache)
        ensures
            r.wf(),
            r@ == Map::<Seq<char>, bool>::empty(),
    {
        ExternalCache { entries: Vec::new() }
    }

    /// The number of keys that have a result.
    pub fn len(&self) -> (r: usize)
        requires
            self.wf(),
        ensures
            r == self@.len(),
    {
        proof {
            lemma_entries_len(self.entries@);
        }
        self.entries.len()
    }

    /// The result recorded for `key`, if any.
    pub fn lookup(&self, key: &str) -> (r: Option<bool>)
        requires
            self.wf(),
        ensures
            r == (if self@.contains_key(key@) {
                Some(self@[key@])
            } else {
                None
            }),
    {
        proof {
            lemma_entries_map(self.entries@);
        }
        let mut i: usize = 0;
        while i < self.entries.len()
            invariant
                i <= self.entries.len(),
                self.wf(),
                forall|j: int| 0 <= j < i ==> self.entries@[j].key@ != key@,
            decreases self.entries.len() - i,
        {
            if same_text(&self.entries[i].key, key) {
                proof {
                    lemma_entries_map(self.entries@);
                    assert(self.entries@[i as int].key@ == key@);
                    assert(self@ == entries_map(self.entries@));
                    assert(entries_map(self.entries@).contains_key(key@));
                    assert(entries_map(self.entries@)[self.entries@[i as int].key@]
                        == self.entries@[i as int].reachable);
                }
                return Some(self.entries[i].reachable);
            }
            i += 1;
        }
        None
    }

    /// Records a result for `key` unless it has one, and returns the result
    /// that now stands for it.
    pub fn record(&mut self, key: &str, reachable: bool) -> (r: bool)
        requires
            old(self).wf(),
        ensures
            final(self).wf(),
            final(self)@ == recorded(old(self)@, key@, reachable),
            r == final(self)@[key@],
    {
        match self.lookup(key) {
            Some(v) => v,
            None => {
                proof {
                    lemma_entries_map(self.entries@);
                }
                let ghost before = self.entries@;
                self.entries.push(CacheEntry { key: String::from_str(key), reachable });
                proof {
                    assert(self.entries@.drop_last() =~= before);
                    assert forall|i: int, j: int|
                        0 <= i < j < self.entries@.len() implies self.entries@[i].key@
                        != self.entries@[j].key@ by {
                        if j == before.len() {
                            assert(before[i].key@ == self.entries@[i].key@);
                        }
                    }
                }
                reachable
            },
        }
    }
}

proof fn lemma_entries_len(s: Seq<CacheEntry>)
    requires
        keys_unique(s),
    ensures
        entries_map(s).dom().finite(),
        entries_map(s).len() == s.len(),
    decreases s.len(),
{
    if s.len() > 0 {
        let p = s.drop_last();
        assert(keys_unique(p));
        lemma_entries_len(p);
        lemma_entries_map(p);
        if entries_map(p).contains_key(s.last().key@) {
            let i = choose|i: int| 0 <= i < p.len() && p[i].key@ == s.last().key@;
            assert(s[i].key@ == s[s.len() - 1].key@);
        }
    }
}

} // verus!
