//! The two hashes of a key, both from the `hash32` crate: a Murmur3 hash
//! and an FNV hash, each from the hasher's fixed default state.
use vstd::prelude::*;

verus! {

/// Keys hashed have fewer characters than this. A character takes at most
/// four bytes in UTF-8, so with the terminator that hashing a `str` adds,
/// the bytes that `Murmur3Hasher` counts in its `u32` stay below
/// `u32::MAX`; at that count its running total would overflow.
pub const MAX_KEY_CHARS: usize = 0x4000_0000;

/// The Murmur3 hash (32 bits) that hashing a string with `hash32`'s
/// `Murmur3Hasher` gives.
pub uninterp spec fn murmur3_of(key: Seq<char>) -> u32;

/// The FNV hash (32 bits) that hashing a string with `hash32`'s
/// `FnvHasher` gives.
pub uninterp spec fn fnv_of(key: Seq<char>) -> u32;

/// Relies on `hash32::Murmur3Hasher`: from its default state, hashing a `str`
/// writes the string's bytes and a terminator, so the result is fixed by
/// the key's characters. It adds the number of bytes written to a `u32`
/// without wrapping, so the key is kept below `MAX_KEY_CHARS` characters.
#[verifier::external_body]
pub(crate) fn murmur3(key: &str) -> (r: u32)
    requires
        key@.len() < MAX_KEY_CHARS,
    ensures
        r == murmur3_of(key@),
{
    let mut hasher = hash32::Murmur3Hasher::default();
    core::hash::Hash::hash(key, &mut hasher);
    hash32::Hasher::finish32(&hasher)
}

/// Relies on `hash32::FnvHasher`: from its default state, hashing a `str`
/// writes the string's bytes and a terminator, so the result is fixed by
/// the key's characters.
#[verifier::external_body]
pub(crate) fn fnv(key: &str) -> (r: u32)
    ensures
        r == fnv_of(key@),
{
    let mut hasher = hash32::FnvHasher::default();
    core::hash::Hash::hash(key, &mut hasher);
    hash32::Hasher::finish32(&hasher)
}

} // verus!
