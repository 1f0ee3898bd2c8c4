//! Planning and result handling of the image-build subprocess.
//!
//! The builder turns a build description into the exact argument list of
//! the build engine: no cache reuse, host networking, the optional tag,
//! the caller's build arguments, and the proxy address wired into the
//! subprocess's network configuration, so every fetch the build performs
//! transits the proxy. The description itself is streamed over standard
//! input, never passed as a file path. The subprocess's exit and captured
//! output are interpreted here too.

use crate::cache::views_of;
use crate::config::GoshConfig;
use crate::errors::BuildError;
use crate::text::{spec_trimmed, trim};
use vstd::prelude::*;

verus! {

/// The builder of one image: just its description.
#[derive(Debug)]
pub struct GoshBuilder {
    pub config: GoshConfig,
}

/// What the build subprocess produced: its exit code, and in quiet mode
/// the image identifier parsed from its captured output.
#[derive(Debug)]
pub struct GoshBuildResult {
    pub exit_code: i32,
    pub image_hash: Option<String>,
}

/// One proxy environment assignment: `name=http://address`.
pub fn proxy_env_arg(name: &str, proxy_addr: &str) -> (r: String)
    ensures
        r@ == name@ + "=http://"@ + proxy_addr@,
{
    let mut r = crate::cache::owned_str(name);
    r.append("=http://");
    r.append(proxy_addr);
    r
}

/// The fixed front of the build engine's argument list.
pub open spec fn spec_build_args_head() -> Seq<Seq<char>> {
    seq!["buildx"@, "build"@, "--no-cache"@, "--network=host"@]
}

/// The tag arguments: the `--tag` pair when a tag is configured.
pub open spec fn spec_tag_args(tag: Option<String>) -> Seq<Seq<char>> {
    match tag {
        Some(t) => seq!["--tag"@, t@],
        None => Seq::empty(),
    }
}

/// The quiet flag, when asked for.
pub open spec fn spec_quiet_args(quiet: bool) -> Seq<Seq<char>> {
    if quiet {
        seq!["--quiet"@]
    } else {
        Seq::empty()
    }
}

/// The caller-supplied build arguments, flattened in order.
pub open spec fn spec_user_args(args: Seq<(String, String)>) -> Seq<Seq<char>>
    decreases args.len(),
{
    if args.len() == 0 {
        Seq::empty()
    } else {
        seq![args[0].0@, args[0].1@] + spec_user_args(args.drop_first())
    }
}

/// The proxy environment tail: both proxy variables and the build-tool
/// specific one, all pointing at the proxy address, then the marker that
/// reads the description from standard input.
pub open spec fn spec_proxy_args(proxy_addr: Seq<char>) -> Seq<Seq<char>> {
    seq![
        "--build-arg"@,
        "http_proxy=http://"@ + proxy_addr,
        "--build-arg"@,
        "https_proxy=http://"@ + proxy_addr,
        "--build-arg"@,
        "GOSH_HTTP_PROXY=http://"@ + proxy_addr,
        "-"@,
    ]
}

/// The whole argument list of one build invocation.
pub open spec fn spec_build_args(
    tag: Option<String>,
    quiet: bool,
    args: Seq<(String, String)>,
    proxy_addr: Seq<char>,
) -> Seq<Seq<char>> {
    spec_build_args_head() + spec_tag_args(tag) + spec_quiet_args(quiet) + spec_user_args(args)
        + spec_proxy_args(proxy_addr)
}

impl GoshBuilder {
    /// The argument list of the build engine for this description: the
    /// fixed head, the optional tag, the optional quiet flag, the caller's
    /// build arguments, and the proxy environment, ending with the marker
    /// that takes the dockerfile from standard input.
    pub fn build_args(&self, quiet: bool, proxy_addr: &str) -> (r: Vec<String>)
        ensures
            views_of(r@) == spec_build_args(self.config.tag, quiet, self.config.args@, proxy_addr@),
    {
        let mut args: Vec<String> = Vec::new();
        args.push(String::from_str("buildx"));
        args.push(String::from_str("build"));
        args.push(String::from_str("--no-cache"));
        args.push(String::from_str("--network=host"));
        match &self.config.tag {
            Some(t) => {
                args.push(String::from_str("--tag"));
                args.push(t.clone());
            },
            None => {},
        }
        if quiet {
            args.push(String::from_str("--quiet"));
        }
        let ghost head = views_of(args@);
        proof {
            assert(head =~= spec_build_args_head() + spec_tag_args(self.config.tag)
                + spec_quiet_args(quiet));
        }
        let n = self.config.args.len();
        let mut i: usize = 0;
        assert(self.config.args@.subrange(0, 0) =~= Seq::<(String, String)>::empty());
        while i < n
            invariant
                n == self.config.args@.len(),
                i <= n,
                views_of(args@) == head + spec_user_args(self.config.args@.subrange(0, i as int)),
            decreases n - i,
        {
            let key = self.config.args[i].0.clone();
            let value = self.config.args[i].1.clone();
            let ghost before = views_of(args@);
            args.push(key);
            args.push(value);
            proof {
                let prefix = self.config.args@.subrange(0, i as int);
                let longer = self.config.args@.subrange(0, i + 1);
                assert(views_of(args@) =~= before + seq![
                    self.config.args@[i as int].0@,
                    self.config.args@[i as int].1@,
                ]);
                lemma_user_args_snoc(longer);
                assert(longer.drop_last() =~= prefix);
                assert(longer.last() == self.config.args@[i as int]);
                assert(views_of(args@) =~= head + spec_user_args(longer));
            }
            i += 1;
        }
        assert(self.config.args@.subrange(0, n as int) =~= self.config.args@);
        let ghost mid = views_of(args@);
        args.push(String::from_str("--build-arg"));
        args.push(proxy_env_arg("http_proxy", proxy_addr));
        args.push(String::from_str("--build-arg"));
        args.push(proxy_env_arg("https_proxy", proxy_addr));
        args.push(String::from_str("--build-arg"));
        args.push(proxy_env_arg("GOSH_HTTP_PROXY", proxy_addr));
        args.push(String::from_str("-"));
        proof {
            reveal_strlit("http_proxy");
            reveal_strlit("https_proxy");
            reveal_strlit("GOSH_HTTP_PROXY");
            reveal_strlit("=http://");
            reveal_strlit("http_proxy=http://");
            reveal_strlit("https_proxy=http://");
            reveal_strlit("GOSH_HTTP_PROXY=http://");
            assert("http_proxy"@ + "=http://"@ =~= "http_proxy=http://"@);
            assert("https_proxy"@ + "=http://"@ =~= "https_proxy=http://"@);
            assert("GOSH_HTTP_PROXY"@ + "=http://"@ =~= "GOSH_HTTP_PROXY=http://"@);
            assert(views_of(args@) =~= mid + spec_proxy_args(proxy_addr@));
            assert(views_of(args@) =~= head + spec_user_args(self.config.args@) + spec_proxy_args(
                proxy_addr@,
            ));
            assert(views_of(args@) =~= spec_build_args(
                self.config.tag,
                quiet,
                self.config.args@,
                proxy_addr@,
            ));
        }
        args
    }

    /// The bytes streamed to the subprocess's standard input: exactly the
    /// description's dockerfile.
    pub fn stdin_payload(&self) -> (r: String)
        ensures
            r@ == self.config.dockerfile@,
    {
        self.config.dockerfile.clone()
    }
}

/// What the finished build subprocess produced. In quiet mode the captured
/// output, trimmed, is the image identifier; in verbose mode output was
/// mirrored live and no identifier is parsed.
pub fn build_result(quiet: bool, exit_code: i32, captured: &str) -> (r: GoshBuildResult)
    ensures
        r.exit_code == exit_code,
        quiet ==> (r.image_hash matches Some(h) && h@ == spec_trimmed(captured@)),
        !quiet ==> r.image_hash is None,
{
    if quiet {
        GoshBuildResult { exit_code, image_hash: Some(trim(captured)) }
    } else {
        GoshBuildResult { exit_code, image_hash: None }
    }
}

/// The session outcome of a build: a zero exit yields the image identifier
/// (empty when none was parsed); a non-zero exit is a build error carrying
/// the code, and is never retried.
pub fn build_image_outcome(result: GoshBuildResult) -> (r: Result<String, BuildError>)
    ensures
        result.exit_code == 0 ==> (r matches Ok(h) && h@ == (match result.image_hash {
            Some(s) => s@,
            None => Seq::<char>::empty(),
        })),
        result.exit_code != 0 ==> (r matches Err(e) && e.exit_code == result.exit_code),
{
    if result.exit_code == 0 {
        match result.image_hash {
            Some(h) => Ok(h),
            None => Ok(String::new()),
        }
    } else {
        Err(BuildError { exit_code: result.exit_code })
    }
}

proof fn lemma_user_args_snoc(args: Seq<(String, String)>)
    requires
        args.len() > 0,
    ensures
        spec_user_args(args) == spec_user_args(args.drop_last()) + seq![
            args.last().0@,
            args.last().1@,
        ],
    decreases args.len(),
{
    if args.len() == 1 {
        let e = args.drop_first();
        assert(e.len() == 0);
        assert(spec_user_args(e) == Seq::<Seq<char>>::empty());
        assert(spec_user_args(args) == seq![args[0].0@, args[0].1@] + spec_user_args(e));
        assert(spec_user_args(args) =~= seq![args.last().0@, args.last().1@]);
        assert(args.drop_last() =~= Seq::<(String, String)>::empty());
        assert(spec_user_args(args.drop_last()) == Seq::<Seq<char>>::empty());
        assert(spec_user_args(args.drop_last()) + seq![args.last().0@, args.last().1@] =~= seq![
            args.last().0@,
            args.last().1@,
        ]);
    } else {
        let t = args.drop_first();
        lemma_user_args_snoc(t);
        assert(t.drop_last() =~= args.drop_last().drop_first());
        assert(t.last() == args.last());
        assert(spec_user_args(args) =~= seq![args[0].0@, args[0].1@] + spec_user_args(t));
        assert(spec_user_args(args.drop_last()) =~= seq![args[0].0@, args[0].1@] + spec_user_args(
            args.drop_last().drop_first(),
        ));
        assert(spec_user_args(args) =~= spec_user_args(args.drop_last()) + seq![
            args.last().0@,
            args.last().1@,
        ]);
    }
}

} // verus!
