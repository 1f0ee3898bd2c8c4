//! Verified helpers for the character-level string work that the rest of the
//! library builds on: searching, slicing, hex formatting, whitespace
//! trimming and UTF-8 decoding.

use vstd::prelude::*;

verus! {

/// Relies on String::push: appends exactly the one character.
#[verifier::external_body]
pub fn push_char(s: &mut String, c: char)
    ensures
        final(s)@ == old(s)@.push(c),
{
    s.push(c);
}

/// Index of the first occurrence of `c` in `s`, if any.
pub fn find_char(s: &str, c: char) -> (r: Option<usize>)
    ensures
        match r {
            Some(i) => i < s@.len() && s@[i as int] == c && forall|j: int|
                0 <= j < i ==> s@[j] != c,
            None => forall|j: int| 0 <= j < s@.len() ==> s@[j] != c,
        },
{
    let n = s.unicode_len();
    let mut i: usize = 0;
    while i < n
        invariant
            n == s@.len(),
            i <= n,
            forall|j: int| 0 <= j < i ==> s@[j] != c,
        decreases n - i,
    {
        if s.get_char(i) == c {
            return Some(i);
        }
        i += 1;
    }
    None
}

/// Copy of the characters of `s` from `from` (inclusive) to `to` (exclusive).
pub fn substring(s: &str, from: usize, to: usize) -> (r: String)
    requires
        from <= to <= s@.len(),
    ensures
        r@ == s@.subrange(from as int, to as int),
{
    String::from_str(s.substring_char(from, to))
}

pub open spec fn spec_hex_digit(d: u64) -> char {
    HEX_DIGITS[d as int]
}

pub const HEX_DIGITS: [char; 16] = [
    '0',
    '1',
    '2',
    '3',
    '4',
    '5',
    '6',
    '7',
    '8',
    '9',
    'a',
    'b',
    'c',
    'd',
    'e',
    'f',
];

/// Lower-case hexadecimal digits of `x`, most significant first, with no
/// leading zeros (a lone `'0'` for zero).
pub open spec fn spec_hex(x: u64) -> Seq<char>
    decreases x,
{
    if x < 16 {
        seq![spec_hex_digit(x)]
    } else {
        spec_hex(x / 16).push(spec_hex_digit(x % 16))
    }
}

fn hex_digit(d: u64) -> (c: char)
    requires
        d < 16,
    ensures
        c == spec_hex_digit(d),
{
    HEX_DIGITS[d as usize]
}

/// Lower-case hexadecimal rendering of `x`, without leading zeros.
pub fn u64_to_hex(x: u64) -> (r: String)
    ensures
        r@ == spec_hex(x),
    decreases x,
{
    if x < 16 {
        let mut r = String::new();
        push_char(&mut r, hex_digit(x));
        r
    } else {
        let mut r = u64_to_hex(x / 16);
        push_char(&mut r, hex_digit(x % 16));
        r
    }
}

/// The ASCII whitespace that surrounds the output of line-oriented tools.
pub open spec fn is_ws(c: char) -> bool {
    c == ' ' || c == '\n' || c == '\t' || c == '\r'
}

/// `s` without its leading ASCII whitespace.
pub open spec fn spec_trim_front(s: Seq<char>) -> Seq<char>
    decreases s.len(),
{
    if s.len() > 0 && is_ws(s[0]) {
        spec_trim_front(s.drop_first())
    } else {
        s
    }
}

/// `s` without its trailing ASCII whitespace.
pub open spec fn spec_trim_back(s: Seq<char>) -> Seq<char>
    decreases s.len(),
{
    if s.len() > 0 && is_ws(s.last()) {
        spec_trim_back(s.drop_last())
    } else {
        s
    }
}

/// `s` without leading or trailing ASCII whitespace.
pub open spec fn spec_trimmed(s: Seq<char>) -> Seq<char> {
    spec_trim_back(spec_trim_front(s))
}

proof fn lemma_front_skip(s: Seq<char>, i: int)
    requires
        0 <= i <= s.len(),
        forall|j: int| 0 <= j < i ==> is_ws(s[j]),
        i < s.len() ==> !is_ws(s[i]),
    ensures
        spec_trim_front(s) == s.subrange(i, s.len() as int),
    decreases i,
{
    if i == 0 {
        assert(s.subrange(0, s.len() as int) =~= s);
    } else {
        let t = s.drop_first();
        assert(forall|j: int| 0 <= j < i - 1 ==> is_ws(t[j]));
        lemma_front_skip(t, i - 1);
        assert(t.subrange(i - 1, t.len() as int) =~= s.subrange(i, s.len() as int));
    }
}

proof fn lemma_back_keep(s: Seq<char>, e: int)
    requires
        -1 <= e < s.len(),
        forall|j: int| e < j < s.len() ==> is_ws(s[j]),
        e >= 0 ==> !is_ws(s[e]),
    ensures
        spec_trim_back(s) == s.subrange(0, e + 1),
    decreases s.len() - e,
{
    if e == s.len() - 1 {
        assert(s.subrange(0, e + 1) =~= s);
    } else {
        let t = s.drop_last();
        assert(is_ws(s.last()));
        assert(forall|j: int| e < j < t.len() ==> is_ws(t[j]));
        lemma_back_keep(t, e);
        assert(t.subrange(0, e + 1) =~= s.subrange(0, e + 1));
    }
}

proof fn lemma_front_clean(s: Seq<char>)
    ensures
        spec_trim_front(s).len() > 0 ==> !is_ws(spec_trim_front(s)[0]),
    decreases s.len(),
{
    if s.len() > 0 && is_ws(s[0]) {
        lemma_front_clean(s.drop_first());
    }
}

proof fn lemma_back_clean(s: Seq<char>)
    ensures
        spec_trim_back(s).len() > 0 ==> !is_ws(spec_trim_back(s).last()),
    decreases s.len(),
{
    if s.len() > 0 && is_ws(s.last()) {
        lemma_back_clean(s.drop_last());
    }
}

proof fn lemma_back_keeps_first(s: Seq<char>)
    ensures
        spec_trim_back(s).len() > 0 ==> s.len() > 0 && spec_trim_back(s)[0] == s[0],
    decreases s.len(),
{
    if s.len() > 0 && is_ws(s.last()) {
        lemma_back_keeps_first(s.drop_last());
    }
}

fn is_ws_char(c: char) -> (r: bool)
    ensures
        r == is_ws(c),
{
    c == ' ' || c == '\n' || c == '\t' || c == '\r'
}

fn scan_front(s: &str) -> (r: usize)
    ensures
        r <= s@.len(),
        forall|j: int| 0 <= j < r ==> is_ws(s@[j]),
        r < s@.len() ==> !is_ws(s@[r as int]),
{
    let n = s.unicode_len();
    let mut i: usize = 0;
    while i < n
        invariant
            n == s@.len(),
            i <= n,
            forall|j: int| 0 <= j < i ==> is_ws(s@[j]),
        decreases n - i,
    {
        if !is_ws_char(s.get_char(i)) {
            return i;
        }
        i += 1;
    }
    i
}

fn scan_back(s: &str, lo: usize) -> (r: usize)
    requires
        lo < s@.len(),
        !is_ws(s@[lo as int]),
    ensures
        lo <= r < s@.len(),
        !is_ws(s@[r as int]),
        forall|j: int| r < j < s@.len() ==> is_ws(s@[j]),
{
    let n = s.unicode_len();
    let mut e: usize = n - 1;
    while lo < e
        invariant
            n == s@.len(),
            lo <= e < n,
            forall|j: int| e < j < n ==> is_ws(s@[j]),
        decreases e,
    {
        if !is_ws_char(s.get_char(e)) {
            return e;
        }
        e -= 1;
    }
    e
}

/// Copy of `s` without leading or trailing ASCII whitespace.
pub fn trim(s: &str) -> (r: String)
    ensures
        r@ == spec_trimmed(s@),
{
    let n = s.unicode_len();
    let i = scan_front(s);
    proof {
        lemma_front_skip(s@, i as int);
    }
    if i == n {
        assert(spec_trim_front(s@) =~= Seq::<char>::empty());
        return String::new();
    }
    let e = scan_back(s, i);
    proof {
        let t1 = spec_trim_front(s@);
        assert(forall|j: int| e - i < j < t1.len() ==> is_ws(t1[j]));
        lemma_back_keep(t1, e - i);
        assert(t1.subrange(0, e - i + 1) =~= s@.subrange(i as int, e + 1));
    }
    substring(s, i, e + 1)
}

/// Trimming is idempotent: a trimmed string trims to itself.
pub proof fn lemma_trim_idempotent(s: Seq<char>)
    ensures
        spec_trimmed(spec_trimmed(s)) == spec_trimmed(s),
{
    let t1 = spec_trim_front(s);
    let t = spec_trim_back(t1);
    if t.len() == 0 {
        assert(spec_trimmed(t) == t);
    } else {
        lemma_back_keeps_first(t1);
        lemma_front_clean(s);
        assert(!is_ws(t[0]));
        assert(spec_trim_front(t) == t);
        lemma_back_clean(t1);
        assert(spec_trim_back(t) == t);
    }
}

/// `nee` occurs as a contiguous run of characters inside `hay`.
pub open spec fn has_sub(hay: Seq<char>, nee: Seq<char>) -> bool {
    exists|i: int|
        0 <= i && i + nee.len() <= hay.len() && #[trigger] hay.subrange(i, i + nee.len()) == nee
}

fn matches_at(hay: &str, nee: &str, at: usize) -> (r: bool)
    requires
        at + nee@.len() <= hay@.len(),
    ensures
        r == (hay@.subrange(at as int, at + nee@.len()) == nee@),
{
    let n = hay.unicode_len();
    let m = nee.unicode_len();
    let mut k: usize = 0;
    while k < m
        invariant
            n == hay@.len(),
            m == nee@.len(),
            at + m <= n,
            k <= m,
            forall|j: int| 0 <= j < k ==> hay@[at + j] == nee@[j],
        decreases m - k,
    {
        if hay.get_char(at + k) != nee.get_char(k) {
            assert(hay@.subrange(at as int, at + nee@.len())[k as int] != nee@[k as int]);
            return false;
        }
        k += 1;
    }
    assert(hay@.subrange(at as int, at + nee@.len()) =~= nee@);
    true
}

/// Whether `nee` occurs anywhere inside `hay`.
pub fn contains_sub(hay: &str, nee: &str) -> (r: bool)
    ensures
        r == has_sub(hay@, nee@),
{
    let n = hay.unicode_len();
    let m = nee.unicode_len();
    if m > n {
        assert(!has_sub(hay@, nee@));
        return false;
    }
    if m == 0 {
        assert(hay@.subrange(0, 0 + nee@.len() as int) =~= nee@);
        assert(has_sub(hay@, nee@));
        return true;
    }
    let mut i: usize = 0;
    while i <= n - m
        invariant
            n == hay@.len(),
            m == nee@.len(),
            0 < m <= n,
            i <= n - m + 1,
            forall|k: int| 0 <= k < i ==> #[trigger] hay@.subrange(k, k + nee@.len()) != nee@,
        decreases n - i,
    {
        if matches_at(hay, nee, i) {
            assert(has_sub(hay@, nee@));
            return true;
        }
        i += 1;
    }
    assert(forall|k: int|
        0 <= k && k + nee@.len() <= hay@.len() ==> #[trigger] hay@.subrange(k, k + nee@.len())
            != nee@);
    false
}

/// Relies on String::from_utf8: decodes exactly the given bytes, succeeding
/// if and only if they are valid UTF-8.
#[verifier::external_body]
pub fn bytes_to_string(v: Vec<u8>) -> (r: Option<String>)
    ensures
        r is Some <==> vstd::utf8::valid_utf8(v@),
        r matches Some(s) ==> vstd::utf8::encode_utf8(s@) == v@,
{
    match String::from_utf8(v) {
        Ok(s) => Some(s),
        Err(_) => None,
    }
}

proof fn lemma_head_tail_eq(a: Seq<char>, b: Seq<char>)
    requires
        a.len() > 0,
        b.len() > 0,
        a[0] == b[0],
        a.drop_first() == b.drop_first(),
    ensures
        a == b,
{
    assert(a.drop_first().len() == a.len() - 1);
    assert(b.drop_first().len() == b.len() - 1);
    assert(a.len() == b.len());
    assert forall|i: int| 0 <= i < a.len() implies a[i] == b[i] by {
        if i > 0 {
            assert(a[i] == a.drop_first()[i - 1]);
            assert(b[i] == b.drop_first()[i - 1]);
        }
    }
    assert(a =~= b);
}

/// Strict lexicographic order on character sequences, by code point.
pub open spec fn lex_lt(a: Seq<char>, b: Seq<char>) -> bool
    decreases a.len(),
{
    if b.len() == 0 {
        false
    } else if a.len() == 0 {
        true
    } else if a[0] != b[0] {
        a[0] < b[0]
    } else {
        lex_lt(a.drop_first(), b.drop_first())
    }
}

/// Lexicographic order, allowing equality.
pub open spec fn lex_le(a: Seq<char>, b: Seq<char>) -> bool {
    a == b || lex_lt(a, b)
}

/// The order is connected: one of the two directions always holds.
pub proof fn lemma_lex_connected(a: Seq<char>, b: Seq<char>)
    ensures
        lex_le(a, b) || lex_le(b, a),
    decreases a.len(),
{
    if b.len() == 0 || a.len() == 0 {
        if a.len() == 0 && b.len() == 0 {
            assert(a =~= b);
        }
    } else if a[0] != b[0] {
    } else {
        lemma_lex_connected(a.drop_first(), b.drop_first());
        if a.drop_first() == b.drop_first() {
            lemma_head_tail_eq(a, b);
        }
    }
}

/// The strict order is transitive.
pub proof fn lemma_lex_lt_trans(a: Seq<char>, b: Seq<char>, c: Seq<char>)
    requires
        lex_lt(a, b),
        lex_lt(b, c),
    ensures
        lex_lt(a, c),
    decreases a.len(),
{
    if a.len() == 0 || c.len() == 0 {
    } else if a[0] != c[0] {
        assert(a[0] < c[0]) by {
            if a[0] == b[0] {
            } else if b[0] == c[0] {
            } else {
            }
        }
    } else {
        if a[0] == b[0] && b[0] == c[0] {
            lemma_lex_lt_trans(a.drop_first(), b.drop_first(), c.drop_first());
        } else {
            assert(false);
        }
    }
}

/// The order, with equality allowed, is transitive.
pub proof fn lemma_lex_le_trans(a: Seq<char>, b: Seq<char>, c: Seq<char>)
    requires
        lex_le(a, b),
        lex_le(b, c),
    ensures
        lex_le(a, c),
{
    if a == b || b == c {
    } else {
        lemma_lex_lt_trans(a, b, c);
    }
}

/// The order is antisymmetric: mutual order means equality.
pub proof fn lemma_lex_antisym(a: Seq<char>, b: Seq<char>)
    requires
        lex_le(a, b),
        lex_le(b, a),
    ensures
        a == b,
    decreases a.len(),
{
    if a != b {
        assert(lex_lt(a, b) && lex_lt(b, a));
        if a.len() == 0 || b.len() == 0 {
        } else if a[0] != b[0] {
        } else {
            lemma_lex_antisym(a.drop_first(), b.drop_first());
            lemma_head_tail_eq(a, b);
            assert(false);
        }
    }
}

/// Whether `a` comes no later than `b` in lexicographic order.
pub fn str_le(a: &str, b: &str) -> (r: bool)
    ensures
        r == lex_le(a@, b@),
    decreases a@.len(),
{
    let an = a.unicode_len();
    let bn = b.unicode_len();
    if bn == 0 {
        if an == 0 {
            assert(a@ =~= b@);
        }
        an == 0
    } else if an == 0 {
        true
    } else {
        let ca = a.get_char(0);
        let cb = b.get_char(0);
        if ca != cb {
            ca < cb
        } else {
            let ta = a.substring_char(1, an);
            let tb = b.substring_char(1, bn);
            proof {
                assert(ta@ =~= a@.drop_first());
                assert(tb@ =~= b@.drop_first());
            }
            let r = str_le(ta, tb);
            proof {
                if a@.drop_first() == b@.drop_first() && a@[0] == b@[0] {
                    lemma_head_tail_eq(a@, b@);
                }
                if a@ == b@ {
                    assert(a@.drop_first() =~= b@.drop_first());
                }
            }
            r
        }
    }
}

} // verus!

