//! The provenance ledger: a deduplicated record of every resource the build
//! fetched, each classified and named by a stable identity string. The
//! ledger never holds two records with the same classification and identity;
//! appending an already-present record is a no-op.

use crate::text::{
    lemma_lex_antisym, lemma_lex_connected, lemma_lex_le_trans, lex_le, str_le,
};
use vstd::prelude::*;

verus! {

/// What kind of resource a ledger record names.
#[derive(Debug, Clone, Copy, PartialEq, Eq, Structural)]
pub enum GoshClassification {
    File,
    Commit,
    Repository,
}

/// Rank used to order classifications in the emitted document.
pub open spec fn class_rank_s(c: GoshClassification) -> int {
    match c {
        GoshClassification::File => 0,
        GoshClassification::Commit => 1,
        GoshClassification::Repository => 2,
    }
}

/// The mathematical identity of a record: its classification and the
/// characters of its identity string.
pub open spec fn rec_key(p: (GoshClassification, String)) -> (GoshClassification, Seq<char>) {
    (p.0, p.1@)
}

/// The keys of a record sequence, in order.
pub open spec fn keys_seq(s: Seq<(GoshClassification, String)>) -> Seq<
    (GoshClassification, Seq<char>),
> {
    s.map_values(|p: (GoshClassification, String)| rec_key(p))
}

/// Whether a record with the given key is present.
pub open spec fn has_key(
    s: Seq<(GoshClassification, String)>,
    k: (GoshClassification, Seq<char>),
) -> bool {
    exists|i: int| 0 <= i < s.len() && rec_key(s[i]) == k
}

/// No two records share a key.
pub open spec fn no_dup_keys(s: Seq<(GoshClassification, String)>) -> bool {
    forall|i: int, j: int| 0 <= i < j < s.len() ==> rec_key(s[i]) != rec_key(s[j])
}

/// What appending one record does: nothing when its key is present, else a
/// push at the end.
pub open spec fn spec_append(
    s: Seq<(GoshClassification, String)>,
    p: (GoshClassification, String),
) -> Seq<(GoshClassification, String)> {
    if has_key(s, rec_key(p)) {
        s
    } else {
        s.push(p)
    }
}

/// The provenance ledger of one build session.
#[derive(Debug)]
pub struct Sbom {
    pub inner: Vec<(GoshClassification, String)>,
}

impl Default for Sbom {
    /// A fresh, empty ledger.
    fn default() -> (r: Sbom)
        ensures
            r.inner@ == Seq::<(GoshClassification, String)>::empty(),
    {
        Sbom { inner: Vec::new() }
    }
}

impl Sbom {
    /// Every record's key occurs once.
    pub open spec fn wf(&self) -> bool {
        no_dup_keys(self.inner@)
    }

    /// Record a fetched resource: inserts the (classification, identity)
    /// pair unless a record with the same key is already present.
    pub fn append(&mut self, component_type: GoshClassification, raw_component: String)
        ensures
            final(self).inner@ == spec_append(
                old(self).inner@,
                (component_type, raw_component),
            ),
            old(self).wf() ==> final(self).wf(),
    {
        let n = self.inner.len();
        let mut i: usize = 0;
        while i < n
            invariant
                *self == *old(self),
                n == self.inner@.len(),
                i <= n,
                forall|j: int|
                    0 <= j < i ==> rec_key(self.inner@[j]) != (component_type, raw_component@),
            decreases n - i,
        {
            let c_eq = self.inner[i].0 == component_type;
            let s_eq = self.inner[i].1 == raw_component;
            if c_eq && s_eq {
                assert(rec_key(self.inner@[i as int]) == (component_type, raw_component@));
                assert(has_key(self.inner@, (component_type, raw_component@)));
                return ;
            }
            i += 1;
        }
        assert(!has_key(self.inner@, (component_type, raw_component@)));
        self.inner.push((component_type, raw_component));
        assert(old(self).wf() ==> final(self).wf()) by {
            if old(self).wf() {
                let s = final(self).inner@;
                let kn = rec_key(s.last());
                assert(!has_key(old(self).inner@, kn));
                assert(forall|a: int, b: int| 0 <= a < b < s.len() ==> rec_key(s[a]) != rec_key(
                    s[b],
                )) by {
                    assert(forall|a: int| 0 <= a < s.len() - 1 ==> rec_key(s[a]) != kn);
                }
            }
        }
    }
}

/// Appending the same record twice leaves the ledger as one append does.
pub proof fn lemma_append_idempotent(
    s: Seq<(GoshClassification, String)>,
    p: (GoshClassification, String),
)
    ensures
        spec_append(spec_append(s, p), p) == spec_append(s, p),
{
    if !has_key(s, rec_key(p)) {
        let t = s.push(p);
        assert(rec_key(t[s.len() as int]) == rec_key(p));
        assert(has_key(t, rec_key(p)));
    }
}

/// Appending never loses a key and adds at most the appended one.
pub proof fn lemma_append_keys(
    s: Seq<(GoshClassification, String)>,
    p: (GoshClassification, String),
)
    ensures
        keys_seq(spec_append(s, p)).to_set() == keys_seq(s).to_set().insert(rec_key(p)),
{
    broadcast use vstd::seq_lib::group_seq_properties;

    if has_key(s, rec_key(p)) {
        let i = choose|i: int| 0 <= i < s.len() && rec_key(s[i]) == rec_key(p);
        assert(keys_seq(s)[i] == rec_key(p));
        assert(keys_seq(s).to_set().contains(rec_key(p)));
        assert(keys_seq(spec_append(s, p)).to_set() =~= keys_seq(s).to_set().insert(rec_key(p)));
    } else {
        let t = s.push(p);
        assert(keys_seq(t) =~= keys_seq(s).push(rec_key(p)));
        keys_seq(s).lemma_push_to_set_commute(rec_key(p));
        assert(keys_seq(spec_append(s, p)).to_set() =~= keys_seq(s).to_set().insert(rec_key(p)));
    }
}

/// Order on record keys: by classification rank, then identity
/// lexicographically. This is the emission order of the document.
pub open spec fn key_le(
    a: (GoshClassification, Seq<char>),
    b: (GoshClassification, Seq<char>),
) -> bool {
    class_rank_s(a.0) < class_rank_s(b.0) || (class_rank_s(a.0) == class_rank_s(b.0) && lex_le(
        a.1,
        b.1,
    ))
}

pub proof fn lemma_key_le_connected(
    a: (GoshClassification, Seq<char>),
    b: (GoshClassification, Seq<char>),
)
    ensures
        key_le(a, b) || key_le(b, a),
{
    lemma_lex_connected(a.1, b.1);
}

pub proof fn lemma_key_le_trans(
    a: (GoshClassification, Seq<char>),
    b: (GoshClassification, Seq<char>),
    c: (GoshClassification, Seq<char>),
)
    requires
        key_le(a, b),
        key_le(b, c),
    ensures
        key_le(a, c),
{
    if class_rank_s(a.0) == class_rank_s(b.0) && class_rank_s(b.0) == class_rank_s(c.0) {
        lemma_lex_le_trans(a.1, b.1, c.1);
    }
}

pub proof fn lemma_key_le_antisym(
    a: (GoshClassification, Seq<char>),
    b: (GoshClassification, Seq<char>),
)
    requires
        key_le(a, b),
        key_le(b, a),
    ensures
        a == b,
{
    assert(class_rank_s(a.0) == class_rank_s(b.0));
    assert(a.0 == b.0);
    lemma_lex_antisym(a.1, b.1);
}

fn class_rank(c: &GoshClassification) -> (r: u8)
    ensures
        r as int == class_rank_s(*c),
{
    match c {
        GoshClassification::File => 0,
        GoshClassification::Commit => 1,
        GoshClassification::Repository => 2,
    }
}

fn rec_le(x: &(GoshClassification, String), y: &(GoshClassification, String)) -> (r: bool)
    ensures
        r == key_le(rec_key(*x), rec_key(*y)),
{
    let rx = class_rank(&x.0);
    let ry = class_rank(&y.0);
    if rx < ry {
        true
    } else if rx > ry {
        false
    } else {
        str_le(x.1.as_str(), y.1.as_str())
    }
}

/// Records stand in emission order.
pub open spec fn keys_sorted(s: Seq<(GoshClassification, String)>) -> bool {
    forall|i: int, j: int| 0 <= i < j < s.len() ==> key_le(rec_key(s[i]), rec_key(s[j]))
}

fn find_insert_pos(v: &Vec<(GoshClassification, String)>, p: &(GoshClassification, String)) -> (r:
    usize)
    ensures
        r <= v@.len(),
        forall|j: int| 0 <= j < r ==> key_le(rec_key(v@[j]), rec_key(*p)),
        r < v@.len() ==> !key_le(rec_key(v@[r as int]), rec_key(*p)),
{
    let n = v.len();
    let mut i: usize = 0;
    while i < n
        invariant
            n == v@.len(),
            i <= n,
            forall|j: int| 0 <= j < i ==> key_le(rec_key(v@[j]), rec_key(*p)),
        decreases n - i,
    {
        if !rec_le(&v[i], p) {
            return i;
        }
        i += 1;
    }
    i
}

fn sorted_insert(v: &mut Vec<(GoshClassification, String)>, p: (GoshClassification, String))
    requires
        keys_sorted(old(v)@),
    ensures
        keys_sorted(final(v)@),
        final(v)@.len() == old(v)@.len() + 1,
        keys_seq(final(v)@).to_multiset() == keys_seq(old(v)@).to_multiset().insert(rec_key(p)),
{
    broadcast use vstd::seq_lib::to_multiset_insert;

    let pos = find_insert_pos(v, &p);
    let ghost s = v@;
    v.insert(pos, p);
    proof {
        let t = final(v)@;
        assert(t == s.insert(pos as int, p));
        assert forall|i: int, j: int| 0 <= i < j < t.len() implies key_le(
            rec_key(t[i]),
            rec_key(t[j]),
        ) by {
            if pos < s.len() {
                lemma_key_le_connected(rec_key(s[pos as int]), rec_key(p));
            }
            if i == pos && j > pos && pos < s.len() {
                lemma_key_le_trans(rec_key(p), rec_key(s[pos as int]), rec_key(s[j - 1]));
            }
        }
        assert(keys_seq(t) =~= keys_seq(s).insert(pos as int, rec_key(p)));
    }
}

/// The records in emission order: sorted by classification rank, then by
/// identity; the same records, rearranged.
pub fn sort_records(v: &Vec<(GoshClassification, String)>) -> (r: Vec<
    (GoshClassification, String),
>)
    ensures
        keys_sorted(r@),
        keys_seq(r@).to_multiset() == keys_seq(v@).to_multiset(),
        r@.len() == v@.len(),
{
    broadcast use vstd::seq_lib::to_multiset_build;

    let n = v.len();
    let mut out: Vec<(GoshClassification, String)> = Vec::new();
    assert(keys_seq(v@.subrange(0, 0)) =~= Seq::<(GoshClassification, Seq<char>)>::empty());
    assert(keys_seq(out@) =~= Seq::<(GoshClassification, Seq<char>)>::empty());
    let mut i: usize = 0;
    while i < n
        invariant
            n == v@.len(),
            i <= n,
            keys_sorted(out@),
            out@.len() == i,
            keys_seq(out@).to_multiset() == keys_seq(v@.subrange(0, i as int)).to_multiset(),
        decreases n - i,
    {
        let p = (v[i].0, v[i].1.clone());
        assert(rec_key(p) == rec_key(v@[i as int]));
        sorted_insert(&mut out, p);
        proof {
            assert(keys_seq(v@.subrange(0, i + 1)) =~= keys_seq(v@.subrange(0, i as int)).push(
                rec_key(v@[i as int]),
            ));
            vstd::seq_lib::to_multiset_build(
                keys_seq(v@.subrange(0, i as int)),
                rec_key(v@[i as int]),
            );
            assert(keys_seq(v@.subrange(0, i + 1)).to_multiset() =~= keys_seq(
                v@.subrange(0, i as int),
            ).to_multiset().insert(rec_key(v@[i as int])));
        }
        i += 1;
    }
    assert(v@.subrange(0, n as int) =~= v@);
    out
}

/// What appending does at the level of keys: nothing when present, else a
/// push.
pub open spec fn keys_append(
    ks: Seq<(GoshClassification, Seq<char>)>,
    k: (GoshClassification, Seq<char>),
) -> Seq<(GoshClassification, Seq<char>)> {
    if ks.contains(k) {
        ks
    } else {
        ks.push(k)
    }
}

/// A record key is present exactly when the key sequence contains it.
pub proof fn lemma_has_key_contains(
    s: Seq<(GoshClassification, String)>,
    k: (GoshClassification, Seq<char>),
)
    ensures
        has_key(s, k) == keys_seq(s).contains(k),
{
    if has_key(s, k) {
        let i = choose|i: int| 0 <= i < s.len() && rec_key(s[i]) == k;
        assert(keys_seq(s)[i] == k);
    }
    if keys_seq(s).contains(k) {
        let i = choose|i: int| 0 <= i < keys_seq(s).len() && keys_seq(s)[i] == k;
        assert(rec_key(s[i]) == k);
    }
}

/// Appending a record appends its key.
pub proof fn lemma_keys_of_append(
    s: Seq<(GoshClassification, String)>,
    p: (GoshClassification, String),
)
    ensures
        keys_seq(spec_append(s, p)) == keys_append(keys_seq(s), rec_key(p)),
{
    lemma_has_key_contains(s, rec_key(p));
    if !has_key(s, rec_key(p)) {
        assert(keys_seq(s.push(p)) =~= keys_seq(s).push(rec_key(p)));
    }
}

} // verus!


