//! The membership filter: 128 bits, two hash positions per key, and its
//! 16-byte persisted form.
use crate::bits::{
    array_from_words, array_get, array_set, array_words, bits_of, word_bit, words_bits, Bits128,
    NUM_BITS,
};
use crate::hashing::{fnv, fnv_of, murmur3, murmur3_of, MAX_KEY_CHARS};
use vstd::prelude::*;

verus! {

/// Length in bytes of the persisted form.
pub const STATE_LEN: usize = 16;

/// What the filter says of a key.
#[derive(PartialEq, Eq, Structural, Debug, Clone, Copy)]
pub enum Exists {
    /// The key was never inserted.
    No,
    /// The key may have been inserted, or shares both positions with keys that were.
    Maybe,
}

/// Why a filter could not be had.
#[derive(PartialEq, Eq, Structural, Debug, Clone, Copy)]
pub enum FilterError {
    /// The persisted bytes do not have the length of a filter.
    CorruptState,
    /// The store that holds the persisted bytes failed.
    StoreUnavailable,
}

/// The first position of a key: its Murmur3 hash modulo the number of bits.
pub open spec fn first_position(key: Seq<char>) -> int {
    murmur3_of(key) as int % 128
}

/// The second position of a key: its FNV hash modulo the number of bits.
pub open spec fn second_position(key: Seq<char>) -> int {
    fnv_of(key) as int % 128
}

/// The 128 cleared bits of a fresh filter.
pub open spec fn empty_bits() -> Seq<bool> {
    Seq::new(128, |i: int| false)
}

/// The bits after inserting `key`: both of its positions set.
pub open spec fn inserted_bits(bits: Seq<bool>, key: Seq<char>) -> Seq<bool> {
    bits.update(first_position(key), true).update(second_position(key), true)
}

/// The answer for `key`: possibly present exactly when both of its
/// positions are set.
pub open spec fn answer_for(bits: Seq<bool>, key: Seq<char>) -> Exists {
    if bits[first_position(key)] && bits[second_position(key)] {
        Exists::Maybe
    } else {
        Exists::No
    }
}

/// The big-endian word at block `j` of `b`.
pub open spec fn be_word(b: Seq<u8>, j: int) -> u32 {
    ((b[4 * j] as u32) << 24u32) | ((b[4 * j + 1] as u32) << 16u32) | ((b[4 * j + 2] as u32)
        << 8u32) | (b[4 * j + 3] as u32)
}

/// The bits that 16 persisted bytes stand for: four big-endian words.
pub open spec fn decode_bits(b: Seq<u8>) -> Seq<bool> {
    words_bits(Seq::new(4, |j: int| be_word(b, j)))
}

/// The bits that persisted bytes decode to, or `None` where their length
/// is not that of a filter.
pub open spec fn decode_state(b: Seq<u8>) -> Option<Seq<bool>> {
    if b.len() == 16 {
        Some(decode_bits(b))
    } else {
        None
    }
}

proof fn lemma_zero_word_bit(b: u32)
    ensures
        (0u32 >> b) & 1u32 != 1u32,
{
    assert((0u32 >> b) & 1u32 != 1u32) by (bit_vector);
}

proof fn lemma_word_bytes(w: u32)
    ensures
        (((((w >> 24u32) as u8) as u32) << 24u32) | ((((w >> 16u32) as u8) as u32) << 16u32) | ((((
        w >> 8u32) as u8) as u32) << 8u32) | (((w as u8) as u32))) == w,
{
    assert((((((w >> 24u32) as u8) as u32) << 24u32) | ((((w >> 16u32) as u8) as u32) << 16u32)
        | ((((w >> 8u32) as u8) as u32) << 8u32) | (((w as u8) as u32))) == w) by (bit_vector);
}

proof fn lemma_word_from_bits(a: u32, b: u32)
    requires
        (a >> 0u32) & 1u32 == (b >> 0u32) & 1u32,
        (a >> 1u32) & 1u32 == (b >> 1u32) & 1u32,
        (a >> 2u32) & 1u32 == (b >> 2u32) & 1u32,
        (a >> 3u32) & 1u32 == (b >> 3u32) & 1u32,
        (a >> 4u32) & 1u32 == (b >> 4u32) & 1u32,
        (a >> 5u32) & 1u32 == (b >> 5u32) & 1u32,
        (a >> 6u32) & 1u32 == (b >> 6u32) & 1u32,
        (a >> 7u32) & 1u32 == (b >> 7u32) & 1u32,
        (a >> 8u32) & 1u32 == (b >> 8u32) & 1u32,
        (a >> 9u32) & 1u32 == (b >> 9u32) & 1u32,
        (a >> 10u32) & 1u32 == (b >> 10u32) & 1u32,
        (a >> 11u32) & 1u32 == (b >> 11u32) & 1u32,
        (a >> 12u32) & 1u32 == (b >> 12u32) & 1u32,
        (a >> 13u32) & 1u32 == (b >> 13u32) & 1u32,
        (a >> 14u32) & 1u32 == (b >> 14u32) & 1u32,
        (a >> 15u32) & 1u32 == (b >> 15u32) & 1u32,
        (a >> 16u32) & 1u32 == (b >> 16u32) & 1u32,
        (a >> 17u32) & 1u32 == (b >> 17u32) & 1u32,
        (a >> 18u32) & 1u32 == (b >> 18u32) & 1u32,
        (a >> 19u32) & 1u32 == (b >> 19u32) & 1u32,
        (a >> 20u32) & 1u32 == (b >> 20u32) & 1u32,
        (a >> 21u32) & 1u32 == (b >> 21u32) & 1u32,
        (a >> 22u32) & 1u32 == (b >> 22u32) & 1u32,
        (a >> 23u32) & 1u32 == (b >> 23u32) & 1u32,
        (a >> 24u32) & 1u32 == (b >> 24u32) & 1u32,
        (a >> 25u32) & 1u32 == (b >> 25u32) & 1u32,
        (a >> 26u32) & 1u32 == (b >> 26u32) & 1u32,
        (a >> 27u32) & 1u32 == (b >> 27u32) & 1u32,
        (a >> 28u32) & 1u32 == (b >> 28u32) & 1u32,
        (a >> 29u32) & 1u32 == (b >> 29u32) & 1u32,
        (a >> 30u32) & 1u32 == (b >> 30u32) & 1u32,
        (a >> 31u32) & 1u32 == (b >> 31u32) & 1u32,
    ensures
        a == b,
{
    assert(a == b) by (bit_vector)
        requires
            (a >> 0u32) & 1u32 == (b >> 0u32) & 1u32,
            (a >> 1u32) & 1u32 == (b >> 1u32) & 1u32,
            (a >> 2u32) & 1u32 == (b >> 2u32) & 1u32,
            (a >> 3u32) & 1u32 == (b >> 3u32) & 1u32,
            (a >> 4u32) & 1u32 == (b >> 4u32) & 1u32,
            (a >> 5u32) & 1u32 == (b >> 5u32) & 1u32,
            (a >> 6u32) & 1u32 == (b >> 6u32) & 1u32,
            (a >> 7u32) & 1u32 == (b >> 7u32) & 1u32,
            (a >> 8u32) & 1u32 == (b >> 8u32) & 1u32,
            (a >> 9u32) & 1u32 == (b >> 9u32) & 1u32,
            (a >> 10u32) & 1u32 == (b >> 10u32) & 1u32,
            (a >> 11u32) & 1u32 == (b >> 11u32) & 1u32,
            (a >> 12u32) & 1u32 == (b >> 12u32) & 1u32,
            (a >> 13u32) & 1u32 == (b >> 13u32) & 1u32,
            (a >> 14u32) & 1u32 == (b >> 14u32) & 1u32,
            (a >> 15u32) & 1u32 == (b >> 15u32) & 1u32,
            (a >> 16u32) & 1u32 == (b >> 16u32) & 1u32,
            (a >> 17u32) & 1u32 == (b >> 17u32) & 1u32,
            (a >> 18u32) & 1u32 == (b >> 18u32) & 1u32,
            (a >> 19u32) & 1u32 == (b >> 19u32) & 1u32,
            (a >> 20u32) & 1u32 == (b >> 20u32) & 1u32,
            (a >> 21u32) & 1u32 == (b >> 21u32) & 1u32,
            (a >> 22u32) & 1u32 == (b >> 22u32) & 1u32,
            (a >> 23u32) & 1u32 == (b >> 23u32) & 1u32,
            (a >> 24u32) & 1u32 == (b >> 24u32) & 1u32,
            (a >> 25u32) & 1u32 == (b >> 25u32) & 1u32,
            (a >> 26u32) & 1u32 == (b >> 26u32) & 1u32,
            (a >> 27u32) & 1u32 == (b >> 27u32) & 1u32,
            (a >> 28u32) & 1u32 == (b >> 28u32) & 1u32,
            (a >> 29u32) & 1u32 == (b >> 29u32) & 1u32,
            (a >> 30u32) & 1u32 == (b >> 30u32) & 1u32,
            (a >> 31u32) & 1u32 == (b >> 31u32) & 1u32,
    ;
}

proof fn lemma_bytes_from_word(x0: u8, x1: u8, x2: u8, x3: u8, y0: u8, y1: u8, y2: u8, y3: u8)
    requires
        ((x0 as u32) << 24u32) | ((x1 as u32) << 16u32) | ((x2 as u32) << 8u32) | (x3 as u32) == ((
        y0 as u32) << 24u32) | ((y1 as u32) << 16u32) | ((y2 as u32) << 8u32) | (y3 as u32),
    ensures
        x0 == y0 && x1 == y1 && x2 == y2 && x3 == y3,
{
    assert(x0 == y0 && x1 == y1 && x2 == y2 && x3 == y3) by (bit_vector)
        requires
            ((x0 as u32) << 24u32) | ((x1 as u32) << 16u32) | ((x2 as u32) << 8u32) | (x3 as u32)
                == ((y0 as u32) << 24u32) | ((y1 as u32) << 16u32) | ((y2 as u32) << 8u32) | (
            y3 as u32),
    ;
}

/// Two 16-byte strings that decode to the same bits are the same bytes:
/// the persisted form of a filter is unique.
pub proof fn lemma_encoding_unique(b1: Seq<u8>, b2: Seq<u8>)
    requires
        b1.len() == 16,
        b2.len() == 16,
        decode_bits(b1) == decode_bits(b2),
    ensures
        b1 == b2,
{
    let w1 = Seq::new(4, |j: int| be_word(b1, j));
    let w2 = Seq::new(4, |j: int| be_word(b2, j));
    assert forall|j: int| 0 <= j < 4 implies #[trigger] w1[j] == w2[j] && b1[4 * j] == b2[
        4 * j] && b1[4 * j + 1] == b2[4 * j
        + 1] && b1[4 * j + 2] == b2[4 * j + 2] && b1[4 * j + 3] == b2[4 * j + 3] by {
        let a = be_word(b1, j);
        let b = be_word(b2, j);
        assert(w1[j] == a && w2[j] == b);
        assert forall|i: int| 0 <= i < 32 implies word_bit(a, i) == word_bit(b, i) by {
            assert((32 * j + i) / 32 == j && (32 * j + i) % 32 == i) by (nonlinear_arith)
                requires
                    0 <= i < 32,
                    0 <= j < 4,
            ;
            assert(words_bits(w1)[32 * j + i] == words_bits(w2)[32 * j + i]);
            assert(words_bits(w1)[32 * j + i] == word_bit(w1[j], i));
            assert(words_bits(w2)[32 * j + i] == word_bit(w2[j], i));
        }
        assert forall|i: u32| i < 32 implies (a >> i) & 1u32 == (b >> i) & 1u32 by {
            assert(word_bit(a, i as int) == word_bit(b, i as int));
            assert((a >> i) & 1u32 == 0u32 || (a >> i) & 1u32 == 1u32) by (bit_vector);
            assert((b >> i) & 1u32 == 0u32 || (b >> i) & 1u32 == 1u32) by (bit_vector);
        }
        assert(((a >> 0u32) & 1u32 == (b >> 0u32) & 1u32));
        assert(((a >> 1u32) & 1u32 == (b >> 1u32) & 1u32));
        assert(((a >> 2u32) & 1u32 == (b >> 2u32) & 1u32));
        assert(((a >> 3u32) & 1u32 == (b >> 3u32) & 1u32));
        assert(((a >> 4u32) & 1u32 == (b >> 4u32) & 1u32));
        assert(((a >> 5u32) & 1u32 == (b >> 5u32) & 1u32));
        assert(((a >> 6u32) & 1u32 == (b >> 6u32) & 1u32));
        assert(((a >> 7u32) & 1u32 == (b >> 7u32) & 1u32));
        assert(((a >> 8u32) & 1u32 == (b >> 8u32) & 1u32));
        assert(((a >> 9u32) & 1u32 == (b >> 9u32) & 1u32));
        assert(((a >> 10u32) & 1u32 == (b >> 10u32) & 1u32));
        assert(((a >> 11u32) & 1u32 == (b >> 11u32) & 1u32));
        assert(((a >> 12u32) & 1u32 == (b >> 12u32) & 1u32));
        assert(((a >> 13u32) & 1u32 == (b >> 13u32) & 1u32));
        assert(((a >> 14u32) & 1u32 == (b >> 14u32) & 1u32));
        assert(((a >> 15u32) & 1u32 == (b >> 15u32) & 1u32));
        assert(((a >> 16u32) & 1u32 == (b >> 16u32) & 1u32));
        assert(((a >> 17u32) & 1u32 == (b >> 17u32) & 1u32));
        assert(((a >> 18u32) & 1u32 == (b >> 18u32) & 1u32));
        assert(((a >> 19u32) & 1u32 == (b >> 19u32) & 1u32));
        assert(((a >> 20u32) & 1u32 == (b >> 20u32) & 1u32));
        assert(((a >> 21u32) & 1u32 == (b >> 21u32) & 1u32));
        assert(((a >> 22u32) & 1u32 == (b >> 22u32) & 1u32));
        assert(((a >> 23u32) & 1u32 == (b >> 23u32) & 1u32));
        assert(((a >> 24u32) & 1u32 == (b >> 24u32) & 1u32));
        assert(((a >> 25u32) & 1u32 == (b >> 25u32) & 1u32));
        assert(((a >> 26u32) & 1u32 == (b >> 26u32) & 1u32));
        assert(((a >> 27u32) & 1u32 == (b >> 27u32) & 1u32));
        assert(((a >> 28u32) & 1u32 == (b >> 28u32) & 1u32));
        assert(((a >> 29u32) & 1u32 == (b >> 29u32) & 1u32));
        assert(((a >> 30u32) & 1u32 == (b >> 30u32) & 1u32));
        assert(((a >> 31u32) & 1u32 == (b >> 31u32) & 1u32));
        lemma_word_from_bits(a, b);
        lemma_bytes_from_word(
            b1[4 * j],
            b1[4 * j + 1],
            b1[4 * j + 2],
            b1[4 * j + 3],
            b2[4 * j],
            b2[4 * j + 1],
            b2[4 * j + 2],
            b2[4 * j + 3],
        );
    }
    assert forall|k: int| 0 <= k < 16 implies b1[k] == b2[k] by {
        let j = k / 4;
        assert(0 <= j < 4 && (k == 4 * j || k == 4 * j + 1 || k == 4 * j + 2 || k == 4 * j + 3))
            by (nonlinear_arith)
            requires
                0 <= k < 16,
                j == k / 4,
        ;
        assert(w1[j] == w2[j]);
    }
    assert(b1 =~= b2);
}

/// The filter: 128 bits and the number of insertions made on this value.
pub struct BloomFilter {
    array: Bits128,
    num: usize,
}

impl BloomFilter {
    /// The filter's bits, in index order.
    pub closed spec fn bits(&self) -> Seq<bool> {
        bits_of(self.array)
    }

    /// The number of insertions made since this value was built.
    pub closed spec fn count(&self) -> nat {
        self.num as nat
    }

    /// A filter always has exactly 128 bits.
    pub open spec fn wf(&self) -> bool {
        self.bits().len() == 128
    }

    /// A fresh filter: every bit cleared, no insertion counted.
    pub fn new() -> (r: Self)
        ensures
            r.wf(),
            r.bits() == empty_bits(),
            r.count() == 0,
    {
        let words = [0u32; 4];
        let array = array_from_words(words);
        proof {
            assert forall|i: int| 0 <= i < 128 implies !#[trigger] words_bits(words@)[i] by {
                assert(0 <= i / 32 < 4);
                assert(words@[i / 32] == 0u32);
                lemma_zero_word_bit((i % 32) as u32);
            }
            assert(words_bits(words@) =~= empty_bits());
        }
        BloomFilter { array, num: 0 }
    }

    /// Rebuilds a filter from its persisted form: four big-endian 32-bit
    /// words. Any other length than 16 bytes is corrupt. The insertion
    /// count starts again from zero.
    pub fn from_vec(e: Vec<u8>) -> (r: Result<Self, FilterError>)
        ensures
            match r {
                Ok(f) => f.wf() && decode_state(e@) == Some(f.bits()) && f.count() == 0,
                Err(err) => decode_state(e@) is None && err == FilterError::CorruptState,
            },
    {
        if e.len() != STATE_LEN {
            return Err(FilterError::CorruptState);
        }
        let mut words = [0u32; 4];
        let mut j: usize = 0;
        while j < 4
            invariant
                e@.len() == 16,
                0 <= j <= 4,
                forall|k: int| 0 <= k < j ==> words@[k] == be_word(e@, k),
            decreases 4 - j,
        {
            let b = 4 * j;
            let w = ((e[b] as u32) << 24u32) | ((e[b + 1] as u32) << 16u32) | ((e[b + 2] as u32)
                << 8u32) | (e[b + 3] as u32);
            words[j] = w;
            j = j + 1;
        }
        assert(words@ =~= Seq::new(4, |k: int| be_word(e@, k)));
        Ok(BloomFilter { array: array_from_words(words), num: 0 })
    }

    /// The persisted form: the four words of the bit array, each as four
    /// big-endian bytes, in order.
    pub fn to_bytes(&self) -> (r: Vec<u8>)
        requires
            self.wf(),
        ensures
            r@.len() == 16,
            decode_bits(r@) == self.bits(),
    {
        let words = array_words(&self.array);
        let mut v: Vec<u8> = Vec::new();
        let mut j: usize = 0;
        while j < 4
            invariant
                0 <= j <= 4,
                v@.len() == 4 * j,
                forall|k: int| 0 <= k < j ==> be_word(v@, k) == words@[k],
            decreases 4 - j,
        {
            let w = words[j];
            let ghost prev = v;
            v.push((w >> 24u32) as u8);
            v.push((w >> 16u32) as u8);
            v.push((w >> 8u32) as u8);
            v.push(w as u8);
            proof {
                lemma_word_bytes(w);
                assert forall|k: int| 0 <= k <= j implies be_word(v@, k) == words@[k] by {
                    if k < j {
                        assert(v@.subrange(0, 4 * j as int) == prev@);
                        assert(v@[4 * k] == prev@[4 * k]);
                        assert(v@[4 * k + 1] == prev@[4 * k + 1]);
                        assert(v@[4 * k + 2] == prev@[4 * k + 2]);
                        assert(v@[4 * k + 3] == prev@[4 * k + 3]);
                    }
                }
            }
            j = j + 1;
        }
        assert(Seq::new(4, |k: int| be_word(v@, k)) =~= words@);
        v
    }

    /// The number of insertions made since this value was built.
    pub fn insertions(&self) -> (r: usize)
        ensures
            r == self.count(),
    {
        self.num
    }

    /// Inserts `key`: sets the bits at both of its positions and counts
    /// the insertion.
    pub fn insert(&mut self, key: &str)
        requires
            old(self).wf(),
            old(self).count() < usize::MAX,
            key@.len() < MAX_KEY_CHARS,
        ensures
            final(self).wf(),
            final(self).bits() == inserted_bits(old(self).bits(), key@),
            final(self).count() == old(self).count() + 1,
            answer_for(final(self).bits(), key@) == Exists::Maybe,
    {
        self.num = self.num + 1;
        let hash1 = murmur3(key) as usize % NUM_BITS;
        array_set(&mut self.array, hash1, true);
        let hash2 = fnv(key) as usize % NUM_BITS;
        array_set(&mut self.array, hash2, true);
    }

    /// Whether `key` is definitely absent (`No`) or possibly present
    /// (`Maybe`): `No` exactly when one of its two bits is clear.
    pub fn query(&self, key: &str) -> (r: Exists)
        requires
            self.wf(),
            key@.len() < MAX_KEY_CHARS,
        ensures
            r == answer_for(self.bits(), key@),
    {
        let hash1 = murmur3(key) as usize % NUM_BITS;
        let hash2 = fnv(key) as usize % NUM_BITS;
        if !array_get(&self.array, hash1) || !array_get(&self.array, hash2) {
            Exists::No
        } else {
            Exists::Maybe
        }
    }
}

/// A fresh filter, with no insertion, holds no set bit, so it answers
/// `No` for every key.
pub proof fn lemma_fresh_filter_rejects_every_key(key: Seq<char>)
    ensures
        answer_for(empty_bits(), key) == Exists::No,
{
}

/// Right after a key is inserted the filter answers `Maybe` for it,
/// whatever the bits were before: there are no false negatives.
pub proof fn lemma_inserted_key_is_possibly_present(bits: Seq<bool>, key: Seq<char>)
    requires
        bits.len() == 128,
    ensures
        answer_for(inserted_bits(bits, key), key) == Exists::Maybe,
{
}

/// Insertion only sets bits: every bit set before stays set, so a key
/// once possibly present stays possibly present.
pub proof fn lemma_insert_never_clears(bits: Seq<bool>, key: Seq<char>, other: Seq<char>)
    requires
        bits.len() == 128,
    ensures
        inserted_bits(bits, key).len() == 128,
        forall|i: int| 0 <= i < 128 && bits[i] ==> #[trigger] inserted_bits(bits, key)[i],
        answer_for(bits, other) == Exists::Maybe ==> answer_for(inserted_bits(bits, key), other)
            == Exists::Maybe,
{
}

/// Decoding the bytes that `to_bytes` writes for a filter's bits gives
/// back exactly those bits.
pub proof fn lemma_round_trip(bits: Seq<bool>, bytes: Seq<u8>)
    requires
        bits.len() == 128,
        bytes.len() == 16,
        decode_bits(bytes) == bits,
    ensures
        decode_state(bytes) == Some(bits),
{
}

} // verus!
