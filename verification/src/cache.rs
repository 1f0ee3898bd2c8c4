//! One cached clone of a remote repository.
//!
//! The entry knows its remote URL and its on-disk directory, which is named
//! by a stable hash of the URL. Every operation on the entry is carried out
//! by an external version-control subprocess; the functions here plan that
//! subprocess's arguments and interpret its outcome, so the caller only
//! spawns what was planned and hands the results back.

use crate::errors::CacheError;
use crate::hash::{hex_hash, spec_hex_hash};
use crate::text::{push_char, spec_trimmed, trim};
use vstd::prelude::*;

verus! {

/// The views of an argument list.
pub open spec fn views_of(v: Seq<String>) -> Seq<Seq<char>> {
    v.map_values(|s: String| s@)
}

/// Relies on dirs::cache_dir: the platform's cache directory, when the
/// environment defines one. Nothing is assumed about its value.
#[verifier::external_body]
fn platform_cache_dir() -> (r: Option<String>)
{
    dirs::cache_dir().map(|p| p.to_string_lossy().into_owned())
}

/// What a compressing encoder emits for the given bytes at the given level;
/// a function of those alone.
pub uninterp spec fn zstd_of(data: Seq<u8>, level: int) -> Seq<u8>;

/// Relies on zstd::stream::encode_all: the compressed frame is a function
/// of the input bytes and the compression level alone.
#[verifier::external_body]
pub fn zstd_compress(data: &Vec<u8>, level: i32) -> (r: Option<Vec<u8>>)
    ensures
        r matches Some(c) ==> c@ == zstd_of(data@, level as int),
{
    zstd::stream::encode_all(&data[..], level).ok()
}

/// The directory suffix that names a remote's cache entry: a fixed segment
/// and the stable hash of the URL.
pub open spec fn cache_dir_suffix(url: Seq<char>) -> Seq<char> {
    "/gosh/"@ + spec_hex_hash(url)
}

/// `dir` is a cache directory for `url`: it ends with the URL's naming
/// suffix.
pub open spec fn is_cache_dir_for(dir: Seq<char>, url: Seq<char>) -> bool {
    dir.len() >= cache_dir_suffix(url).len() && dir.subrange(
        dir.len() - cache_dir_suffix(url).len(),
        dir.len() as int,
    ) == cache_dir_suffix(url)
}

/// One on-disk clone of a remote repository.
#[derive(Debug)]
pub struct GitCacheRepo {
    pub git_dir: String,
    pub url: String,
}

impl GitCacheRepo {
    /// The entry for a remote: its directory is the platform cache
    /// directory (or a local fallback) plus the URL's naming suffix, so the
    /// same remote always maps to the same directory.
    pub fn from(url: String) -> (r: GitCacheRepo)
        ensures
            r.url@ == url@,
            is_cache_dir_for(r.git_dir@, url@),
    {
        let mut git_dir = match platform_cache_dir() {
            Some(root) => root,
            None => String::from_str(".cache"),
        };
        let ghost root_view = git_dir@;
        git_dir.append("/gosh/");
        let h = hex_hash(url.as_str());
        git_dir.append(h.as_str());
        proof {
            assert(git_dir@ =~= root_view + cache_dir_suffix(url@));
            assert(git_dir@.subrange(
                git_dir@.len() - cache_dir_suffix(url@).len(),
                git_dir@.len() as int,
            ) =~= cache_dir_suffix(url@));
        }
        GitCacheRepo { git_dir, url }
    }

    /// Arguments of the subprocess that initializes or refreshes the entry:
    /// a pull when the directory already exists, else a clone of the remote
    /// into the directory.
    pub fn update_args(&self, dir_exists: bool) -> (r: Vec<String>)
        ensures
            dir_exists ==> views_of(r@) == seq!["pull"@, "--all"@],
            !dir_exists ==> views_of(r@) == seq!["clone"@, self.url@, "."@],
    {
        let mut args: Vec<String> = Vec::new();
        if dir_exists {
            args.push(String::from_str("pull"));
            args.push(String::from_str("--all"));
            assert(views_of(args@) =~= seq!["pull"@, "--all"@]);
        } else {
            args.push(String::from_str("clone"));
            args.push(self.url.clone());
            args.push(String::from_str("."));
            assert(views_of(args@) =~= seq!["clone"@, self.url@, "."@]);
        }
        args
    }

    /// What an initialization or refresh outcome means: success is success,
    /// and failure is an initialization or refresh error carrying the
    /// remote URL and the entry's directory. The entry itself is unchanged
    /// either way; a failed refresh leaves the on-disk state for the next
    /// attempt.
    pub fn update_outcome(&self, dir_existed: bool, success: bool) -> (r: Result<(), CacheError>)
        ensures
            r is Ok <==> success,
            !success && dir_existed ==> (r matches Err(e) && (e matches CacheError::Refresh {
                url,
                dir,
            } && url@ == self.url@ && dir@ == self.git_dir@)),
            !success && !dir_existed ==> (r matches Err(e) && (e matches CacheError::Init {
                url,
                dir,
            } && url@ == self.url@ && dir@ == self.git_dir@)),
    {
        if success {
            Ok(())
        } else if dir_existed {
            Err(CacheError::Refresh { url: self.url.clone(), dir: self.git_dir.clone() })
        } else {
            Err(CacheError::Init { url: self.url.clone(), dir: self.git_dir.clone() })
        }
    }

    /// Arguments of the subprocess that regenerates the static index files
    /// the dumb retrieval protocol serves.
    pub fn update_server_info_args(&self) -> (r: Vec<String>)
        ensures
            views_of(r@) == seq!["update-server-info"@],
    {
        let mut args: Vec<String> = Vec::new();
        args.push(String::from_str("update-server-info"));
        assert(views_of(args@) =~= seq!["update-server-info"@]);
        args
    }

    /// The path under the entry's internal store that the dumb protocol
    /// serves for `src`.
    pub fn dumb(&self, src: &str) -> (r: String)
        ensures
            r@ == self.git_dir@ + "/.git/"@ + src@,
    {
        let mut r = self.git_dir.clone();
        r.append("/.git/");
        r.append(src);
        r
    }

    /// Arguments of the subprocess that writes a tar snapshot of a commit's
    /// tree to its standard output.
    pub fn archive_args(&self, commit: &str) -> (r: Vec<String>)
        ensures
            views_of(r@) == seq!["archive"@, "--format=tar"@, commit@],
    {
        let mut args: Vec<String> = Vec::new();
        args.push(String::from_str("archive"));
        args.push(String::from_str("--format=tar"));
        args.push(owned_str(commit));
        assert(views_of(args@) =~= seq!["archive"@, "--format=tar"@, commit@]);
        args
    }

    /// What an archive outcome means: on success exactly the compressed
    /// bytes that were drained from the subprocess, on failure an archive
    /// error naming the remote.
    pub fn archive_outcome(&self, success: bool, compressed: Vec<u8>) -> (r: Result<
        Vec<u8>,
        CacheError,
    >)
        ensures
            success ==> (r matches Ok(b) && b@ == compressed@),
            !success ==> (r matches Err(e) && (e matches CacheError::Archive { url } && url@
                == self.url@)),
    {
        if success {
            Ok(compressed)
        } else {
            Err(CacheError::Archive { url: self.url.clone() })
        }
    }

    /// Arguments of the subprocess that writes one file's content at a
    /// commit to its standard output: a single `commit:path` selector.
    pub fn show_args(&self, commit: &str, file_path: &str) -> (r: Vec<String>)
        ensures
            views_of(r@) == seq!["show"@, commit@ + seq![':'] + file_path@],
    {
        let mut selector = owned_str(commit);
        push_char(&mut selector, ':');
        selector.append(file_path);
        let mut args: Vec<String> = Vec::new();
        args.push(String::from_str("show"));
        args.push(selector);
        assert(views_of(args@) =~~= seq!["show"@, commit@ + seq![':'] + file_path@]);
        args
    }

    /// What a show outcome means: on success exactly the bytes that were
    /// drained, on failure a not-found error — a failed show means the
    /// commit or file does not exist.
    pub fn show_outcome(&self, success: bool, body: Vec<u8>) -> (r: Result<Vec<u8>, CacheError>)
        ensures
            success ==> (r matches Ok(b) && b@ == body@),
            !success ==> (r matches Err(e) && (e matches CacheError::NotFound { url } && url@
                == self.url@)),
    {
        if success {
            Ok(body)
        } else {
            Err(CacheError::NotFound { url: self.url.clone() })
        }
    }

    /// Arguments of the subprocess that resolves a ref spelling to its
    /// canonical commit hash.
    pub fn normalize_args(&self, commit: &str) -> (r: Vec<String>)
        ensures
            views_of(r@) == seq!["rev-list"@, "--no-walk"@, commit@],
    {
        let mut args: Vec<String> = Vec::new();
        args.push(String::from_str("rev-list"));
        args.push(String::from_str("--no-walk"));
        args.push(owned_str(commit));
        assert(views_of(args@) =~= seq!["rev-list"@, "--no-walk"@, commit@]);
        args
    }

    /// What a normalization outcome means: on success the subprocess's
    /// output decoded as text and trimmed of surrounding whitespace — the
    /// canonical hash; a failure, or output that is not text, is an error
    /// naming the remote and the ref.
    pub fn normalize_outcome(&self, commit: &str, success: bool, out: Vec<u8>) -> (r: Result<
        String,
        CacheError,
    >)
        ensures
            success ==> ((r is Ok) <==> vstd::utf8::valid_utf8(out@)),
            r matches Ok(t) ==> exists|s: Seq<char>|
                #[trigger] vstd::utf8::encode_utf8(s) == out@ && t@ == spec_trimmed(s),
            !success ==> (r matches Err(e) && (e matches CacheError::Normalize { url, reference }
                && url@ == self.url@ && reference@ == commit@)),
            r matches Err(e) ==> (e is Normalize || e is BadEncoding),
    {
        if !success {
            return Err(
                CacheError::Normalize { url: self.url.clone(), reference: owned_str(commit) },
            );
        }
        match crate::text::bytes_to_string(out) {
            Some(text) => Ok(trim(text.as_str())),
            None => Err(CacheError::BadEncoding { url: self.url.clone() }),
        }
    }
}

/// An owned copy of a borrowed string.
pub fn owned_str(s: &str) -> (r: String)
    ensures
        r@ == s@,
{
    String::from_str(s)
}

} // verus!
