//! The registry of cache entries: one entry per remote URL, created on
//! first resolution and reused ever after.
//!
//! Concurrency note: at run time the registry sits behind an exclusive lock
//! held only for lookup and insertion, and each entry carries its own lock,
//! acquired by the creator before the registry lock is released; per-key
//! operations serialize on the entry's lock. The functions here are the
//! state under those locks: resolution creates an entry exactly when its
//! URL is absent, so for one URL only the first resolution ever
//! initializes, and later ones find the entry and refresh it.

use crate::cache::{is_cache_dir_for, GitCacheRepo};
use vstd::prelude::*;

verus! {

/// The remote URLs the registry holds, in creation order.
pub open spec fn urls_of(s: Seq<(String, GitCacheRepo)>) -> Seq<Seq<char>> {
    s.map_values(|p: (String, GitCacheRepo)| p.0@)
}

/// What resolving a URL does to the registry's URL list: nothing when it is
/// present, else one new entry at the end.
pub open spec fn spec_resolve_urls(urls: Seq<Seq<char>>, url: Seq<char>) -> Seq<Seq<char>> {
    if urls.contains(url) {
        urls
    } else {
        urls.push(url)
    }
}

/// Whether resolving a URL creates a new entry: exactly when it is absent.
pub open spec fn spec_resolve_creates(urls: Seq<Seq<char>>, url: Seq<char>) -> bool {
    !urls.contains(url)
}

/// How many of `n` successive resolutions of `url` create an entry.
pub open spec fn spec_creations(urls: Seq<Seq<char>>, url: Seq<char>, n: nat) -> nat
    decreases n,
{
    if n == 0 {
        0
    } else {
        (if spec_resolve_creates(urls, url) {
            1nat
        } else {
            0nat
        }) + spec_creations(spec_resolve_urls(urls, url), url, (n - 1) as nat)
    }
}

/// Any number of successive resolutions of one URL creates exactly one
/// entry when the URL starts out absent, and none when it is present.
pub proof fn lemma_single_flight(urls: Seq<Seq<char>>, url: Seq<char>, n: nat)
    requires
        n >= 1,
    ensures
        spec_creations(urls, url, n) == (if urls.contains(url) {
            0nat
        } else {
            1nat
        }),
    decreases n,
{
    let next = spec_resolve_urls(urls, url);
    assert(next.contains(url)) by {
        if !urls.contains(url) {
            assert(next[next.len() - 1] == url);
        }
    }
    if n > 1 {
        lemma_single_flight(next, url, (n - 1) as nat);
    } else {
        assert(spec_creations(next, url, (n - 1) as nat) == 0);
    }
}

/// A second resolution of a URL just resolved neither creates an entry nor
/// changes the registry.
pub proof fn lemma_resolve_idempotent(urls: Seq<Seq<char>>, url: Seq<char>)
    ensures
        !spec_resolve_creates(spec_resolve_urls(urls, url), url),
        spec_resolve_urls(spec_resolve_urls(urls, url), url) == spec_resolve_urls(urls, url),
{
    let next = spec_resolve_urls(urls, url);
    assert(next.contains(url)) by {
        if !urls.contains(url) {
            assert(next[next.len() - 1] == url);
        }
    }
}

/// The keyed collection of cache entries of one process.
#[derive(Debug)]
pub struct GitCacheRegistry {
    repos: Vec<(String, GitCacheRepo)>,
}

impl Default for GitCacheRegistry {
    /// An empty registry.
    fn default() -> (r: GitCacheRegistry)
        ensures
            r.urls() == Seq::<Seq<char>>::empty(),
            r.wf(),
    {
        let r = GitCacheRegistry { repos: Vec::new() };
        proof {
            assert(urls_of(r.repos@) =~= Seq::<Seq<char>>::empty());
        }
        r
    }
}

impl GitCacheRegistry {
    /// The URLs the registry holds, in creation order.
    pub closed spec fn urls(&self) -> Seq<Seq<char>> {
        urls_of(self.repos@)
    }

    /// How many entries the registry holds.
    pub closed spec fn spec_len(&self) -> nat {
        self.repos@.len()
    }

    /// Each entry is keyed by its own remote URL, its directory is the
    /// cache directory for that URL, and no URL occurs twice.
    pub closed spec fn wf(&self) -> bool {
        &&& forall|i: int|
            0 <= i < self.repos@.len() ==> (#[trigger] self.repos@[i]).1.url@ == self.repos@[i].0@
        &&& forall|i: int|
            0 <= i < self.repos@.len() ==> is_cache_dir_for(
                (#[trigger] self.repos@[i]).1.git_dir@,
                self.repos@[i].0@,
            )
        &&& forall|i: int, j: int|
            0 <= i < j < self.repos@.len() ==> (#[trigger] self.repos@[i]).0@ != (
            #[trigger] self.repos@[j]).0@
    }

    /// How many entries the registry holds.
    pub fn len(&self) -> (r: usize)
        ensures
            r == self.spec_len(),
    {
        self.repos.len()
    }

    /// The entry at an index.
    pub fn repo(&self, i: usize) -> (r: &GitCacheRepo)
        requires
            i < self.spec_len(),
        ensures
            self.wf() ==> r.url@ == self.urls()[i as int] && is_cache_dir_for(
                r.git_dir@,
                r.url@,
            ),
    {
        assert(urls_of(self.repos@)[i as int] == self.repos@[i as int].0@);
        &self.repos[i].1
    }

    /// Resolve a remote URL to its entry, creating the entry exactly when
    /// the URL has never been resolved before: the index of the entry, and
    /// whether this resolution created it. The caller then initializes a
    /// created entry (clone) or refreshes a found one (pull); a later
    /// resolution of the same URL never creates again, and — the registry
    /// being well-formed — finds the same index.
    pub fn get_or_create_repository(&mut self, url: &str) -> (r: (usize, bool))
        ensures
            final(self).urls() == spec_resolve_urls(old(self).urls(), url@),
            r.1 == spec_resolve_creates(old(self).urls(), url@),
            r.0 < final(self).spec_len(),
            final(self).urls()[r.0 as int] == url@,
            old(self).wf() ==> final(self).wf(),
            old(self).wf() ==> forall|j: int|
                0 <= j < final(self).urls().len() && #[trigger] final(self).urls()[j] == url@
                    ==> j == r.0 as int,
            !r.1 ==> *final(self) == *old(self),
    {
        let key = crate::cache::owned_str(url);
        let n = self.repos.len();
        let mut i: usize = 0;
        while i < n
            invariant
                *self == *old(self),
                n == self.repos@.len(),
                i <= n,
                key@ == url@,
                forall|j: int| 0 <= j < i ==> urls_of(self.repos@)[j] != url@,
            decreases n - i,
        {
            let hit = self.repos[i].0 == key;
            assert(urls_of(self.repos@)[i as int] == self.repos@[i as int].0@);
            if hit {
                assert(urls_of(self.repos@)[i as int] == url@);
                assert(self.urls().contains(url@));
                proof {
                    if old(self).wf() {
                        assert forall|j: int|
                            0 <= j < urls_of(self.repos@).len() && #[trigger] urls_of(
                                self.repos@,
                            )[j] == url@ implies j == i as int by {
                            assert(urls_of(self.repos@)[j] == self.repos@[j].0@);
                            if j > i {
                                assert(self.repos@[i as int].0@ != self.repos@[j].0@);
                            }
                        }
                    }
                }
                return (i, false);
            }
            i += 1;
        }
        assert(forall|j: int| 0 <= j < urls_of(self.repos@).len() ==> urls_of(self.repos@)[j]
            != url@);
        assert(!self.urls().contains(url@));
        let owned = key;
        let repo = GitCacheRepo::from(owned.clone());
        self.repos.push((owned, repo));
        proof {
            assert(urls_of(final(self).repos@) =~= urls_of(old(self).repos@).push(url@));
            assert forall|j: int|
                0 <= j < urls_of(final(self).repos@).len() && #[trigger] urls_of(
                    final(self).repos@,
                )[j] == url@ implies j == n as int by {
                if j < n {
                    assert(urls_of(final(self).repos@)[j] == urls_of(old(self).repos@)[j]);
                }
            }
            if old(self).wf() {
                assert(final(self).wf()) by {
                    let s = final(self).repos@;
                    assert(forall|a: int|
                        0 <= a < s.len() - 1 ==> (#[trigger] s[a]).0@ != url@) by {
                        assert(forall|a: int|
                            0 <= a < s.len() - 1 ==> urls_of(old(self).repos@)[a] == (
                            #[trigger] s[a]).0@);
                    }
                }
            }
        }
        (n, true)
    }
}

} // verus!
