//! The build-context string that names what to build: a remote repository
//! URL, optionally followed by `#` and a ref, optionally followed by `:` and
//! a sub-directory. The string is split on the first `#`, and the remainder
//! on the first `:`; a missing part defaults to empty.

use crate::text::{find_char, push_char, substring};
use vstd::prelude::*;

verus! {

/// Position of the first occurrence of `c` in `s`, or `s.len()` when absent.
pub open spec fn first_at(s: Seq<char>, c: char) -> int
    decreases s.len(),
{
    if s.len() == 0 {
        0
    } else if s[0] == c {
        0
    } else {
        1 + first_at(s.drop_first(), c)
    }
}

/// The parts of `s` before and after the first `c`; all of `s` and an empty
/// remainder when `c` does not occur.
pub open spec fn spec_split_once(s: Seq<char>, c: char) -> (Seq<char>, Seq<char>) {
    let i = first_at(s, c);
    if i < s.len() {
        (s.subrange(0, i), s.subrange(i + 1, s.len() as int))
    } else {
        (s, Seq::empty())
    }
}

/// The (remote, ref, sub-directory) parts of a context string.
pub open spec fn spec_context_of(s: Seq<char>) -> (Seq<char>, Seq<char>, Seq<char>) {
    let remote = spec_split_once(s, '#').0;
    let fragment = spec_split_once(s, '#').1;
    let git_ref = spec_split_once(fragment, ':').0;
    let sub_dir = spec_split_once(fragment, ':').1;
    (remote, git_ref, sub_dir)
}

/// The context string that the parts render to: the remote alone, with
/// `#ref` when a ref or a sub-directory is present, and `:subdir` when a
/// sub-directory is present.
pub open spec fn spec_context_string(
    remote: Seq<char>,
    git_ref: Seq<char>,
    sub_dir: Seq<char>,
) -> Seq<char> {
    if git_ref.len() == 0 && sub_dir.len() == 0 {
        remote
    } else if sub_dir.len() == 0 {
        remote + seq!['#'] + git_ref
    } else {
        remote + seq!['#'] + git_ref + seq![':'] + sub_dir
    }
}

proof fn lemma_first_at_is(s: Seq<char>, c: char, i: int)
    requires
        0 <= i <= s.len(),
        forall|j: int| 0 <= j < i ==> s[j] != c,
        i < s.len() ==> s[i] == c,
    ensures
        first_at(s, c) == i,
    decreases s.len(),
{
    if s.len() == 0 {
    } else if s[0] == c {
        if i > 0 {
            assert(s[0] != c);
        }
    } else {
        let t = s.drop_first();
        assert(forall|j: int| 0 <= j < i - 1 ==> t[j] != c);
        lemma_first_at_is(t, c, i - 1);
    }
}

/// Splitting at the separator undoes joining with it, when the left part is
/// free of the separator.
proof fn lemma_split_joined(a: Seq<char>, c: char, b: Seq<char>)
    requires
        forall|j: int| 0 <= j < a.len() ==> a[j] != c,
    ensures
        spec_split_once(a + seq![c] + b, c) == (a, b),
{
    let s = a + seq![c] + b;
    assert(forall|j: int| 0 <= j < a.len() ==> s[j] != c);
    assert(s[a.len() as int] == c);
    lemma_first_at_is(s, c, a.len() as int);
    assert(s.subrange(0, a.len() as int) =~= a);
    assert(s.subrange(a.len() as int + 1, s.len() as int) =~= b);
}

proof fn lemma_split_absent(a: Seq<char>, c: char)
    requires
        forall|j: int| 0 <= j < a.len() ==> a[j] != c,
    ensures
        spec_split_once(a, c) == (a, Seq::<char>::empty()),
{
    lemma_first_at_is(a, c, a.len() as int);
}

/// The part of `s` before the first `c`, and the part after it (empty when
/// `c` does not occur).
pub fn split_once(s: &str, c: char) -> (r: (String, String))
    ensures
        r.0@ == spec_split_once(s@, c).0,
        r.1@ == spec_split_once(s@, c).1,
{
    let n = s.unicode_len();
    match find_char(s, c) {
        Some(i) => {
            proof {
                lemma_first_at_is(s@, c, i as int);
            }
            (substring(s, 0, i), substring(s, i + 1, n))
        },
        None => {
            proof {
                lemma_first_at_is(s@, c, s@.len() as int);
            }
            assert(s@.subrange(0, n as int) =~= s@);
            (substring(s, 0, n), String::new())
        },
    }
}

/// A build context: remote repository URL, ref (empty means the default
/// branch) and sub-directory (empty means the repository root).
#[derive(Debug, Clone)]
pub struct GitContext {
    pub remote: String,
    pub git_ref: String,
    pub sub_dir: String,
}

impl GitContext {
    /// Parse a context string: split on the first `#`, then the remainder on
    /// the first `:`.
    pub fn from_str(s: &str) -> (r: GitContext)
        ensures
            (r.remote@, r.git_ref@, r.sub_dir@) == spec_context_of(s@),
    {
        let (remote, fragment) = split_once(s, '#');
        let (git_ref, sub_dir) = split_once(fragment.as_str(), ':');
        GitContext { remote, git_ref, sub_dir }
    }

    /// Render the context back into a context string.
    pub fn to_string(&self) -> (r: String)
        ensures
            r@ == spec_context_string(self.remote@, self.git_ref@, self.sub_dir@),
    {
        if self.git_ref.as_str().is_empty() && self.sub_dir.as_str().is_empty() {
            self.remote.clone()
        } else if self.sub_dir.as_str().is_empty() {
            let mut r = self.remote.clone();
            push_char(&mut r, '#');
            r.append(self.git_ref.as_str());
            assert(r@ =~= self.remote@ + seq!['#'] + self.git_ref@);
            r
        } else {
            let mut r = self.remote.clone();
            push_char(&mut r, '#');
            r.append(self.git_ref.as_str());
            push_char(&mut r, ':');
            r.append(self.sub_dir.as_str());
            assert(r@ =~= self.remote@ + seq!['#'] + self.git_ref@ + seq![':'] + self.sub_dir@);
            r
        }
    }
}

/// Parsing a rendered context returns its parts exactly, provided the remote
/// holds no `#` and the ref no `:` — the separators the rendering relies on.
pub proof fn lemma_context_round_trip(remote: Seq<char>, git_ref: Seq<char>, sub_dir: Seq<char>)
    requires
        forall|j: int| 0 <= j < remote.len() ==> remote[j] != '#',
        forall|j: int| 0 <= j < git_ref.len() ==> git_ref[j] != ':',
    ensures
        spec_context_of(spec_context_string(remote, git_ref, sub_dir)) == (
            remote,
            git_ref,
            sub_dir,
        ),
{
    let s = spec_context_string(remote, git_ref, sub_dir);
    if git_ref.len() == 0 && sub_dir.len() == 0 {
        lemma_split_absent(remote, '#');
        lemma_split_absent(Seq::<char>::empty(), ':');
    } else if sub_dir.len() == 0 {
        assert(s =~= remote + seq!['#'] + git_ref);
        lemma_split_joined(remote, '#', git_ref);
        lemma_split_absent(git_ref, ':');
    } else {
        let fragment = git_ref + seq![':'] + sub_dir;
        assert(s =~= remote + seq!['#'] + fragment);
        lemma_split_joined(remote, '#', fragment);
        lemma_split_joined(git_ref, ':', sub_dir);
    }
}

} // verus!
