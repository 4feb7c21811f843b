//! The filter's bit array: a `bitvec` array of four `u32` words, least
//! significant bit first within each word.
use vstd::prelude::*;

verus! {

/// Number of bits in the filter.
pub const NUM_BITS: usize = 128;

/// The four words under the bits.
pub type Words = [u32; 4];

/// The filter's bits, in a `bitvec` array of four `u32` words with
/// `Lsb0` order; Verus sees it only through `bits_of`.
#[verifier::external_body]
pub struct Bits128 {
    array: bitvec::array::BitArray<[u32; 4], bitvec::order::Lsb0>,
}

/// The bits that the array holds, in index order.
pub uninterp spec fn bits_of(a: Bits128) -> Seq<bool>;

/// Bit `i` of the word `w`, counting from the least significant bit.
pub open spec fn word_bit(w: u32, i: int) -> bool {
    (w >> (i as u32)) & 1u32 == 1u32
}

/// The 128 bits that four words hold under least-significant-bit-first
/// order: bit `i` is bit `i % 32` of word `i / 32`.
pub open spec fn words_bits(w: Seq<u32>) -> Seq<bool> {
    Seq::new(128, |i: int| word_bit(w[i / 32], i % 32))
}

/// Relies on `BitArray::new`: wraps the words, with `Lsb0` placing bit
/// `i` at bit `i % 32` of word `i / 32`.
#[verifier::external_body]
pub(crate) fn array_from_words(w: Words) -> (r: Bits128)
    ensures
        bits_of(r) == words_bits(w@),
{
    Bits128 { array: bitvec::array::BitArray::new(w) }
}

/// Relies on `BitArray::into_inner` (the array is `Copy`): the words under
/// the bits.
#[verifier::external_body]
pub(crate) fn array_words(a: &Bits128) -> (r: Words)
    ensures
        words_bits(r@) == bits_of(*a),
{
    a.array.into_inner()
}

/// Relies on `BitSlice::set`: writes one bit in range, leaving the others.
#[verifier::external_body]
pub(crate) fn array_set(a: &mut Bits128, i: usize, v: bool)
    requires
        i < NUM_BITS,
    ensures
        bits_of(*final(a)) == bits_of(*old(a)).update(i as int, v),
{
    a.array.set(i, v)
}

/// Relies on indexing a `BitSlice`: reads one bit in range.
#[verifier::external_body]
pub(crate) fn array_get(a: &Bits128, i: usize) -> (r: bool)
    requires
        i < NUM_BITS,
    ensures
        r == bits_of(*a)[i as int],
{
    a.array[i]
}

} // verus!
