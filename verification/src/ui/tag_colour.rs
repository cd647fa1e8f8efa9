//! Deterministic colours for Tags.
//!
//! Derived Tags have nowhere to store a chosen colour, so the name picks its
//! own. Arbitrary, but stable, which is what makes a Tag recognisable at a
//! glance in the list.

use vstd::prelude::*;

use crate::api::http;
use crate::domain::tag;
use crate::domain::tag::Tag;

verus! {

/// What the hash of no bytes is.
pub const OFFSET_BASIS: u64 = 0xcbf2_9ce4_8422_2325;

/// What the hash is multiplied by at each byte.
pub const PRIME: u64 = 0x0000_0100_0000_01b3;

/// FNV-1a, 64-bit: each byte is mixed in, then the hash is multiplied, modulo
/// two to the 64th.
pub open spec fn hash_of(bytes: Seq<u8>) -> u64
    decreases bytes.len(),
{
    if bytes.len() == 0 {
        OFFSET_BASIS
    } else {
        (hash_of(bytes.drop_last()) ^ (bytes.last() as u64)).wrapping_mul(PRIME)
    }
}

/// FNV-1a, 64-bit.
///
/// Written out rather than taken from a hasher whose output carries no
/// stability guarantee: a toolchain upgrade must not silently repaint every
/// Tag.
pub fn fnv1a(bytes: &[u8]) -> (r: u64)
    ensures
        r == hash_of(bytes@),
{
    let mut hash: u64 = OFFSET_BASIS;
    let mut i: usize = 0;
    assert(bytes@.take(0) =~= Seq::<u8>::empty());
    while i < bytes.len()
        invariant
            i <= bytes.len(),
            hash == hash_of(bytes@.take(i as int)),
        decreases bytes.len() - i,
    {
        assert(bytes@.take(i + 1).drop_last() =~= bytes@.take(i as int));
        assert(bytes@.take(i + 1).last() == bytes@[i as int]);
        hash = hash ^ (bytes[i] as u64);
        hash = hash.wrapping_mul(PRIME);
        i += 1;
    }
    assert(bytes@.take(i as int) =~= bytes@);
    hash
}

/// Which colour of a palette a Tag has.
pub open spec fn colour_of(name: Seq<char>, palette: int) -> int {
    hash_of(vstd::utf8::encode_utf8(tag::key_of(name))) as int % palette
}

/// Which colour of a palette a Tag has.
///
/// Hashes the case-folded key, so `Bug` and `bug`, one Tag, cannot come out two
/// different colours.
pub fn colour_for(tag: &Tag, palette: usize) -> (r: usize)
    requires
        palette > 0,
    ensures
        r < palette,
        r == colour_of(tag@, palette as int),
{
    let bytes = http::bytes_of(tag.key().as_str());
    let hash: u64 = fnv1a(bytes.as_slice());
    (hash % (palette as u64)) as usize
}

/// Law: two spellings of one Tag share a colour.
pub proof fn case_variants_share_a_colour(a: Seq<char>, b: Seq<char>, palette: int)
    requires
        tag::key_of(a) == tag::key_of(b),
    ensures
        colour_of(a, palette) == colour_of(b, palette),
{
}

} // verus!
