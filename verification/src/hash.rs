//! Stable hashing of remote identities.
//!
//! The cache names each repository's on-disk directory after a stable hash of
//! its remote URL, so that the same remote always maps to the same directory
//! across runs. The hash is 64-bit FNV-1a over the URL's UTF-8 bytes,
//! rendered in lower-case hexadecimal.

use crate::text::{spec_hex, u64_to_hex};
use vstd::prelude::*;

verus! {

pub const FNV_OFFSET: u64 = 0xcbf29ce484222325;

pub const FNV_PRIME: u64 = 0x100000001b3;

/// One FNV-1a step: fold the byte in, then multiply modulo 2^64.
pub open spec fn spec_fnv1a_step(h: u64, b: u8) -> u64 {
    vstd::wrapping::u64_specs::wrapping_mul(h ^ (b as u64), FNV_PRIME)
}

/// 64-bit FNV-1a of `bytes`.
pub open spec fn spec_fnv1a(bytes: Seq<u8>) -> u64
    decreases bytes.len(),
{
    if bytes.len() == 0 {
        FNV_OFFSET
    } else {
        spec_fnv1a_step(spec_fnv1a(bytes.drop_last()), bytes.last())
    }
}

/// The hash that names a remote's cache directory: lower-case hex of the
/// FNV-1a hash of the string's UTF-8 bytes.
pub open spec fn spec_hex_hash(s: Seq<char>) -> Seq<char> {
    spec_hex(spec_fnv1a(vstd::utf8::encode_utf8(s)))
}

/// 64-bit FNV-1a of `bytes`.
pub fn fnv1a(bytes: &[u8]) -> (h: u64)
    ensures
        h == spec_fnv1a(bytes@),
{
    let n = bytes.len();
    let mut h: u64 = FNV_OFFSET;
    let mut i: usize = 0;
    assert(bytes@.subrange(0, 0) =~= Seq::<u8>::empty());
    while i < n
        invariant
            n == bytes@.len(),
            i <= n,
            h == spec_fnv1a(bytes@.subrange(0, i as int)),
        decreases n - i,
    {
        h = (h ^ (bytes[i] as u64)).wrapping_mul(FNV_PRIME);
        proof {
            assert(bytes@.subrange(0, i + 1).drop_last() =~= bytes@.subrange(0, i as int));
            assert(bytes@.subrange(0, i + 1).last() == bytes@[i as int]);
        }
        i += 1;
    }
    assert(bytes@.subrange(0, n as int) =~= bytes@);
    h
}

/// Stable hexadecimal hash of a string, as used for cache directory names.
pub fn hex_hash(s: &str) -> (r: String)
    ensures
        r@ == spec_hex_hash(s@),
{
    u64_to_hex(fnv1a(s.as_bytes()))
}

} // verus!
