//! The build description: a dockerfile given inline or by path, an
//! optional image tag, build arguments and an install list. The YAML
//! front end parses the raw shape outside and hands it in; the functions
//! here decide which file must be fetched and assemble the final
//! description.

use crate::errors::ConfigError;
use crate::git_context::GitContext;
use crate::text::push_char;
use vstd::prelude::*;

verus! {

/// A dockerfile in the raw description: inline content, or a path to
/// fetch, told apart by the shape of the parsed structure.
#[derive(Debug)]
pub enum Dockerfile {
    Path { path: String },
    Content(String),
}

/// The raw build description as parsed from its file.
#[derive(Debug)]
pub struct RawGoshConfig {
    pub dockerfile: Dockerfile,
    pub tag: Option<String>,
    pub args: Option<Vec<(String, String)>>,
    pub install: Option<Vec<String>>,
}

/// The assembled build description: the dockerfile is always content.
#[derive(Debug)]
pub struct GoshConfig {
    pub dockerfile: String,
    pub tag: Option<String>,
    pub args: Vec<(String, String)>,
    pub install: Vec<String>,
}

/// The view of an optional string.
pub open spec fn opt_view(o: Option<String>) -> Option<Seq<char>> {
    match o {
        Some(s) => Some(s@),
        None => None,
    }
}

/// The views of a key-value argument list.
pub open spec fn pair_views(v: Seq<(String, String)>) -> Seq<(Seq<char>, Seq<char>)> {
    v.map_values(|p: (String, String)| (p.0@, p.1@))
}

/// A path is absolute when it starts at the root.
pub open spec fn is_absolute_path(p: Seq<char>) -> bool {
    p.len() > 0 && p[0] == '/'
}

/// Joining a relative path onto a base: an absolute path stands alone; an
/// empty base adds nothing; otherwise the two are joined with a single
/// separator.
pub open spec fn spec_join(base: Seq<char>, rel: Seq<char>) -> Seq<char> {
    if is_absolute_path(rel) || base.len() == 0 {
        rel
    } else if base[base.len() - 1] == '/' {
        base + rel
    } else {
        base + seq!['/'] + rel
    }
}

/// Join a path onto a base directory.
pub fn join_path(base: &str, rel: &str) -> (r: String)
    ensures
        r@ == spec_join(base@, rel@),
{
    let bn = base.unicode_len();
    let rn = rel.unicode_len();
    let rel_absolute = rn > 0 && rel.get_char(0) == '/';
    if rel_absolute || bn == 0 {
        crate::cache::owned_str(rel)
    } else if base.get_char(bn - 1) == '/' {
        let mut r = crate::cache::owned_str(base);
        r.append(rel);
        r
    } else {
        let mut r = crate::cache::owned_str(base);
        push_char(&mut r, '/');
        r.append(rel);
        r
    }
}

/// The dockerfile path resolved against the working directory: an
/// absolute path stands as given, a relative one is joined onto the
/// working directory.
pub fn clean_dockerfile_path(raw_dockerfile_path: &str, workdir: &str) -> (r: String)
    ensures
        r@ == spec_join(workdir@, raw_dockerfile_path@),
{
    join_path(workdir, raw_dockerfile_path)
}

/// A path without its last component: everything before the last
/// separator, or empty when there is none.
pub open spec fn spec_parent(p: Seq<char>) -> Seq<char>
    decreases p.len(),
{
    if p.len() == 0 {
        Seq::empty()
    } else if p[p.len() - 1] == '/' {
        p.subrange(0, p.len() - 1)
    } else {
        spec_parent(p.drop_last())
    }
}

/// The directory part of a path.
pub fn parent_dir(p: &str) -> (r: String)
    ensures
        r@ == spec_parent(p@),
{
    let n = p.unicode_len();
    let mut e: usize = n;
    assert(p@.subrange(0, n as int) =~= p@);
    while e > 0
        invariant
            n == p@.len(),
            e <= n,
            spec_parent(p@) == spec_parent(p@.subrange(0, e as int)),
        decreases e,
    {
        proof {
            assert(p@.subrange(0, e as int).drop_last() =~= p@.subrange(0, e - 1));
        }
        if p.get_char(e - 1) == '/' {
            assert(p@.subrange(0, e as int).subrange(0, e - 1) =~= p@.subrange(0, e - 1));
            return crate::text::substring(p, 0, e - 1);
        }
        e -= 1;
    }
    assert(p@.subrange(0, 0) =~= Seq::<char>::empty());
    String::new()
}

/// The description file to fetch for a remote build context: the
/// configured path resolved inside the context's sub-directory.
pub fn config_file_path(git_context: &GitContext, config_path: &str) -> (r: String)
    ensures
        r@ == spec_join(git_context.sub_dir@, config_path@),
{
    join_path(git_context.sub_dir.as_str(), config_path)
}

impl GoshConfig {
    /// Assemble the final description from the raw one. A dockerfile given
    /// inline is used as it stands; one given by path needs its fetched
    /// content, and without that content the description is rejected. Tag,
    /// arguments and install list carry over, absent ones as empty.
    pub fn from_raw(raw: RawGoshConfig, fetched: Option<String>) -> (r: Result<
        GoshConfig,
        ConfigError,
    >)
        ensures
            raw.dockerfile matches Dockerfile::Content(c) ==> (r matches Ok(d)
                && d.dockerfile@ == c@),
            raw.dockerfile matches Dockerfile::Path { path } ==> match fetched {
                Some(c) => r matches Ok(d) && d.dockerfile@ == c@,
                None => r matches Err(e) && (e matches ConfigError::MissingDockerfile {
                    path: missing,
                } && missing@ == path@),
            },
            r matches Ok(d) ==> {
                &&& opt_view(d.tag) == opt_view(raw.tag)
                &&& pair_views(d.args@) == (match raw.args {
                    Some(a) => pair_views(a@),
                    None => Seq::<(Seq<char>, Seq<char>)>::empty(),
                })
                &&& crate::cache::views_of(d.install@) == (match raw.install {
                    Some(l) => crate::cache::views_of(l@),
                    None => Seq::<Seq<char>>::empty(),
                })
            },
    {
        let dockerfile = match raw.dockerfile {
            Dockerfile::Content(c) => c,
            Dockerfile::Path { path } => match fetched {
                Some(c) => c,
                None => {
                    return Err(ConfigError::MissingDockerfile { path });
                },
            },
        };
        let args = match raw.args {
            Some(a) => a,
            None => Vec::new(),
        };
        let install = match raw.install {
            Some(l) => l,
            None => Vec::new(),
        };
        proof {
            if raw.args is None {
                assert(pair_views(Seq::<(String, String)>::empty()) =~= Seq::<
                    (Seq<char>, Seq<char>),
                >::empty());
            }
            if raw.install is None {
                assert(crate::cache::views_of(Seq::<String>::empty()) =~= Seq::<
                    Seq<char>,
                >::empty());
            }
        }
        Ok(GoshConfig { dockerfile, tag: raw.tag, args, install })
    }
}

} // verus!
