//! Request handling of the proxy the build's fetches are routed through.
//!
//! The proxy owns the registry of cache entries and the provenance ledger.
//! Every successful structured fetch appends a record keyed by the remote
//! URL and the normalized commit — never the raw ref, so provenance
//! comparisons are stable across ref spellings — and a failed fetch
//! appends nothing. The network transport and the subprocesses stay
//! outside; the functions here take the fetch outcomes and decide what to
//! record and what to answer.

use crate::cache::views_of;
use crate::errors::CacheError;
use crate::registry::GitCacheRegistry;
use crate::sbom::{
    keys_append, keys_seq, lemma_keys_of_append, GoshClassification, Sbom,
};
use crate::text::{contains_sub, has_sub, push_char};
use vstd::prelude::*;

verus! {

/// The command-line request surface of the fetch client. The parsing front
/// end carries its own deriving copy of these shapes.
#[derive(Debug)]
pub struct Cli {
    pub proxy_addr: String,
    pub command: Commands,
}

/// The structured requests the proxy answers.
#[derive(Debug)]
pub enum Commands {
    /// Commit state as a compressed file tree, without history.
    Commit { gosh_url: String, commit: String },
    /// A single file from a specific commit.
    File { gosh_url: String, commit: String, path: String },
}

/// How the proxy answers a failed request: a missing commit or file is
/// reported as not found, everything else as an internal error, without
/// crashing the service.
#[derive(Debug)]
pub enum ProxyError {
    NotFound { message: String },
    Internal { message: String },
}

/// The reply a cache failure turns into: not found exactly for a missing
/// commit or file, and in either case carrying the failure's own
/// description.
pub open spec fn proxy_reply_of(e: CacheError, p: ProxyError) -> bool {
    &&& (p is NotFound <==> e is NotFound)
    &&& (match p {
        ProxyError::NotFound { message } => message@ == e.spec_message(),
        ProxyError::Internal { message } => message@ == e.spec_message(),
    })
}

/// The resource identity of a fetched commit: `url:commit`.
pub fn commit_resource(gosh_url: &str, commit: &str) -> (r: String)
    ensures
        r@ == gosh_url@ + seq![':'] + commit@,
{
    let mut r = crate::cache::owned_str(gosh_url);
    push_char(&mut r, ':');
    r.append(commit);
    r
}

/// The resource identity of a fetched file: `url:commit:path`.
pub fn file_resource(gosh_url: &str, commit: &str, path: &str) -> (r: String)
    ensures
        r@ == gosh_url@ + seq![':'] + commit@ + seq![':'] + path@,
{
    let mut r = crate::cache::owned_str(gosh_url);
    push_char(&mut r, ':');
    r.append(commit);
    push_char(&mut r, ':');
    r.append(path);
    r
}

/// The remote identity the dumb surface resolves from its leading path
/// segments: `gosh://contract/dao/repo`.
pub fn remote_identity(contract: &str, dao: &str, repo: &str) -> (r: String)
    ensures
        r@ == "gosh://"@ + contract@ + seq!['/'] + dao@ + seq!['/'] + repo@,
{
    let mut r = String::from_str("gosh://");
    r.append(contract);
    push_char(&mut r, '/');
    r.append(dao);
    push_char(&mut r, '/');
    r.append(repo);
    r
}

/// The shared state every request handler works on: the ledger and the
/// registry, created once per build session.
#[derive(Debug)]
pub struct GoshGetService {
    pub sbom: Sbom,
    pub git_cache_registry: GitCacheRegistry,
}

impl GoshGetService {
    /// A service over the given ledger and registry.
    pub fn new(sbom: Sbom, git_cache_registry: GitCacheRegistry) -> (r: GoshGetService)
        ensures
            r.sbom == sbom,
            r.git_cache_registry == git_cache_registry,
    {
        GoshGetService { sbom, git_cache_registry }
    }

    /// Finish a commit-archive request from the cache's outcome: on success
    /// the ledger gains the commit's record — keyed by the normalized
    /// commit — and the archive bytes are returned unchanged; on failure
    /// nothing is recorded and the failure is reported as a proxy error.
    pub fn commit(&mut self, gosh_url: &str, commit_hash: &str, fetched: Result<
        Vec<u8>,
        CacheError,
    >) -> (r: Result<Vec<u8>, ProxyError>)
        ensures
            fetched matches Ok(body) ==> {
                &&& keys_seq(final(self).sbom.inner@) == keys_append(
                    keys_seq(old(self).sbom.inner@),
                    (GoshClassification::Commit, gosh_url@ + seq![':'] + commit_hash@),
                )
                &&& old(self).sbom.wf() ==> final(self).sbom.wf()
                &&& final(self).git_cache_registry == old(self).git_cache_registry
                &&& (r matches Ok(b) && b@ == body@)
            },
            fetched is Err ==> *final(self) == *old(self) && r is Err,
            fetched matches Err(e) ==> (r matches Err(p) && proxy_reply_of(e, p)),
    {
        match fetched {
            Ok(body) => {
                let resource = commit_resource(gosh_url, commit_hash);
                proof {
                    lemma_keys_of_append(
                        self.sbom.inner@,
                        (GoshClassification::Commit, resource),
                    );
                }
                self.sbom.append(GoshClassification::Commit, resource);
                Ok(body)
            },
            Err(e) => Err(proxy_error_of(e)),
        }
    }

    /// Finish a file request from the cache's outcome: on success the
    /// ledger gains the file's record — keyed by the normalized commit and
    /// the path — and the file bytes are returned unchanged; on failure
    /// nothing is recorded, and a missing file is answered as not found,
    /// not as an internal error.
    pub fn file(&mut self, gosh_url: &str, commit_hash: &str, path: &str, fetched: Result<
        Vec<u8>,
        CacheError,
    >) -> (r: Result<Vec<u8>, ProxyError>)
        ensures
            fetched matches Ok(body) ==> {
                &&& keys_seq(final(self).sbom.inner@) == keys_append(
                    keys_seq(old(self).sbom.inner@),
                    (
                        GoshClassification::File,
                        gosh_url@ + seq![':'] + commit_hash@ + seq![':'] + path@,
                    ),
                )
                &&& old(self).sbom.wf() ==> final(self).sbom.wf()
                &&& final(self).git_cache_registry == old(self).git_cache_registry
                &&& (r matches Ok(b) && b@ == body@)
            },
            fetched is Err ==> *final(self) == *old(self) && r is Err,
            fetched matches Err(e) ==> (r matches Err(p) && proxy_reply_of(e, p)),
    {
        match fetched {
            Ok(body) => {
                let resource = file_resource(gosh_url, commit_hash, path);
                proof {
                    lemma_keys_of_append(
                        self.sbom.inner@,
                        (GoshClassification::File, resource),
                    );
                }
                self.sbom.append(GoshClassification::File, resource);
                Ok(body)
            },
            Err(e) => Err(proxy_error_of(e)),
        }
    }

    /// Record a fetch served over the dumb surface: the remote itself is
    /// what was touched.
    pub fn record_repository(&mut self, gosh_url: &str)
        ensures
            keys_seq(final(self).sbom.inner@) == keys_append(
                keys_seq(old(self).sbom.inner@),
                (GoshClassification::Repository, gosh_url@),
            ),
            old(self).sbom.wf() ==> final(self).sbom.wf(),
            final(self).git_cache_registry == old(self).git_cache_registry,
    {
        let resource = crate::cache::owned_str(gosh_url);
        proof {
            lemma_keys_of_append(
                self.sbom.inner@,
                (GoshClassification::Repository, resource),
            );
        }
        self.sbom.append(GoshClassification::Repository, resource);
    }
}

/// How cache failures are reported to proxy callers: a missing commit or
/// file as not found, anything else as internal, each carrying the
/// failure's own description.
fn proxy_error_of(e: CacheError) -> (r: ProxyError)
    ensures
        proxy_reply_of(e, r),
{
    let not_found = matches!(e, CacheError::NotFound { .. });
    let message = e.message();
    if not_found {
        ProxyError::NotFound { message }
    } else {
        ProxyError::Internal { message }
    }
}

/// What one helper-session response holds: the lines before the first line
/// that carries the end-of-response token, each with its line break.
pub open spec fn spec_framed(lines: Seq<Seq<char>>) -> Seq<char>
    decreases lines.len(),
{
    if lines.len() == 0 {
        Seq::empty()
    } else if has_sub(lines[0], "endl"@) {
        Seq::empty()
    } else {
        lines[0] + seq!['\n'] + spec_framed(lines.drop_first())
    }
}

/// Assemble one response from the helper subprocess's line-oriented
/// output: everything before the first line holding the end-of-response
/// token, line breaks restored.
pub fn collect_response(lines: &Vec<String>) -> (r: String)
    ensures
        r@ == spec_framed(views_of(lines@)),
{
    let ghost vs = views_of(lines@);
    let n = lines.len();
    let mut r = String::new();
    let mut i: usize = 0;
    assert(vs.skip(0) =~= vs);
    while i < n
        invariant
            n == lines@.len(),
            vs == views_of(lines@),
            i <= n,
            spec_framed(vs) == r@ + spec_framed(vs.skip(i as int)),
        decreases n - i,
    {
        assert(vs.skip(i as int)[0] == vs[i as int]);
        if contains_sub(lines[i].as_str(), "endl") {
            assert(spec_framed(vs.skip(i as int)) =~= Seq::<char>::empty());
            assert(r@ =~= r@ + Seq::<char>::empty());
            return r;
        }
        r.append(lines[i].as_str());
        push_char(&mut r, '\n');
        proof {
            assert(vs.skip(i as int).drop_first() =~= vs.skip(i + 1));
            assert(spec_framed(vs.skip(i as int)) == vs[i as int] + seq!['\n'] + spec_framed(
                vs.skip(i + 1),
            ));
        }
        i += 1;
    }
    assert(vs.skip(n as int) =~= Seq::<Seq<char>>::empty());
    assert(r@ =~= r@ + Seq::<char>::empty());
    r
}

/// The pool of live helper sessions, by session id.
#[derive(Debug)]
pub struct GitRemotePool {
    pub ids: Vec<String>,
}

impl GitRemotePool {
    /// The session ids the pool holds.
    pub open spec fn spec_ids(&self) -> Seq<Seq<char>> {
        views_of(self.ids@)
    }

    /// An empty pool.
    pub fn new() -> (r: GitRemotePool)
        ensures
            r.spec_ids() == Seq::<Seq<char>>::empty(),
    {
        let r = GitRemotePool { ids: Vec::new() };
        proof {
            assert(views_of(r.ids@) =~= Seq::<Seq<char>>::empty());
        }
        r
    }

    /// Register a session id; registering an id twice keeps one entry.
    pub fn insert(&mut self, id: &str)
        ensures
            final(self).spec_ids() == (if old(self).spec_ids().contains(id@) {
                old(self).spec_ids()
            } else {
                old(self).spec_ids().push(id@)
            }),
    {
        let key = crate::cache::owned_str(id);
        let n = self.ids.len();
        let mut i: usize = 0;
        while i < n
            invariant
                *self == *old(self),
                n == self.ids@.len(),
                i <= n,
                key@ == id@,
                forall|j: int| 0 <= j < i ==> views_of(self.ids@)[j] != id@,
            decreases n - i,
        {
            let hit = self.ids[i] == key;
            assert(views_of(self.ids@)[i as int] == self.ids@[i as int]@);
            if hit {
                assert(self.spec_ids().contains(id@));
                return ;
            }
            i += 1;
        }
        assert(forall|j: int| 0 <= j < views_of(self.ids@).len() ==> views_of(self.ids@)[j]
            != id@);
        assert(!self.spec_ids().contains(id@));
        self.ids.push(key);
        assert(views_of(final(self).ids@) =~= views_of(old(self).ids@).push(id@));
    }

    /// The index of a session id, if it is registered.
    pub fn get(&self, id: &str) -> (r: Option<usize>)
        ensures
            match r {
                Some(i) => i < self.spec_ids().len() && self.spec_ids()[i as int] == id@,
                None => !self.spec_ids().contains(id@),
            },
    {
        let key = crate::cache::owned_str(id);
        let n = self.ids.len();
        let mut i: usize = 0;
        while i < n
            invariant
                n == self.ids@.len(),
                i <= n,
                key@ == id@,
                forall|j: int| 0 <= j < i ==> views_of(self.ids@)[j] != id@,
            decreases n - i,
        {
            let hit = self.ids[i] == key;
            assert(views_of(self.ids@)[i as int] == self.ids@[i as int]@);
            if hit {
                return Some(i);
            }
            i += 1;
        }
        assert(forall|j: int| 0 <= j < views_of(self.ids@).len() ==> views_of(self.ids@)[j]
            != id@);
        None
    }
}

/// The working directory of a helper session: a session-keyed directory
/// under the local cache.
pub fn session_dir(id: &str) -> (r: String)
    ensures
        r@ == ".git-cache/"@ + id@,
{
    let mut r = String::from_str(".git-cache/");
    r.append(id);
    r
}

} // verus!
