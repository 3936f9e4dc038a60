//! Single bits of a 64-bit word, and how many of them are set.

use vstd::prelude::*;

verus! {

/// Whether bit `pos` of `word` is set. Bit 0 is the lowest; there is no bit
/// below 0 or above 63.
pub open spec fn bit_is_set(word: u64, pos: int) -> bool {
    0 <= pos < 64 && (word >> (pos as u64)) & 1 == 1
}

/// The number of set bits of `word` among the positions below `limit`.
pub open spec fn bits_set_below(word: u64, limit: int) -> nat
    decreases limit,
{
    if limit <= 0 {
        0
    } else {
        bits_set_below(word, limit - 1) + if bit_is_set(word, limit - 1) {
            1nat
        } else {
            0nat
        }
    }
}

/// The number of set bits of `word`.
pub open spec fn popcount(word: u64) -> nat {
    bits_set_below(word, 64)
}

/// The lowest bit of `word`, as a number.
spec fn low_bit(word: u64) -> nat {
    if word & 1 == 1 {
        1
    } else {
        0
    }
}

/// Zero has no set bit.
pub proof fn lemma_zero_has_no_bits(limit: int)
    ensures
        bits_set_below(0, limit) == 0,
    decreases limit,
{
    if limit > 0 {
        lemma_zero_has_no_bits(limit - 1);
        if limit <= 64 {
            let pos = (limit - 1) as u64;
            assert((0u64 >> pos) & 1 == 0) by (bit_vector);
        }
    }
}

/// Below `limit` there are at most `limit` set bits.
pub proof fn lemma_bits_bounded(word: u64, limit: int)
    requires
        0 <= limit,
    ensures
        bits_set_below(word, limit) <= limit,
    decreases limit,
{
    if limit > 0 {
        lemma_bits_bounded(word, limit - 1);
    }
}

/// A word has at most 64 set bits, and zero has none.
pub proof fn lemma_popcount_range(word: u64)
    ensures
        popcount(word) <= 64,
        word == 0 ==> popcount(word) == 0,
{
    lemma_bits_bounded(word, 64);
    lemma_zero_has_no_bits(64);
}

/// Counting the bits of `word` below `limit + 1` is counting its lowest
/// bit and then the bits of the shifted word below `limit`.
proof fn lemma_count_by_halving(word: u64, limit: int)
    requires
        0 <= limit < 64,
    ensures
        bits_set_below(word, limit + 1) == low_bit(word) + bits_set_below(word >> 1, limit),
    decreases limit,
{
    if limit == 0 {
        assert(word >> 0 == word) by (bit_vector);
        assert(bits_set_below(word, 0) == 0);
        assert(bits_set_below(word >> 1, 0) == 0);
    } else {
        lemma_count_by_halving(word, limit - 1);
        let pos = limit as u64;
        let below = (limit - 1) as u64;
        assert((word >> pos) & 1 == ((word >> 1) >> below) & 1) by (bit_vector)
            requires
                1 <= pos < 64,
                below == pos - 1,
        ;
        assert(bit_is_set(word, limit) == bit_is_set(word >> 1, limit - 1));
    }
}

/// `word & (word - 1)` is `word` without its lowest set bit: where all the
/// set bits of a word other than zero lie below `limit`, clearing the
/// lowest leaves one fewer.
proof fn lemma_clear_lowest_below(word: u64, limit: int)
    requires
        0 <= limit <= 64,
        word != 0,
        limit < 64 ==> word >> (limit as u64) == 0,
    ensures
        bits_set_below(word & ((word - 1) as u64), limit) + 1 == bits_set_below(word, limit),
    decreases limit,
{
    let cleared = word & ((word - 1) as u64);
    if limit == 0 {
        assert(word >> 0 == word) by (bit_vector);
    } else {
        let rest = limit - 1;
        lemma_count_by_halving(word, rest);
        lemma_count_by_halving(cleared, rest);
        assert(cleared & 1 == 0) by (bit_vector)
            requires
                word != 0,
                cleared == word & ((word - 1) as u64),
        ;
        if word & 1 == 1 {
            assert(cleared >> 1 == word >> 1) by (bit_vector)
                requires
                    word & 1 == 1,
                    cleared == word & ((word - 1) as u64),
            ;
        } else {
            let half = word >> 1;
            assert(half != 0 && cleared >> 1 == half & ((half - 1) as u64)) by (bit_vector)
                requires
                    word != 0,
                    word & 1 != 1,
                    half == word >> 1,
                    cleared == word & ((word - 1) as u64),
            ;
            if limit < 64 {
                let top = limit as u64;
                let top_rest = rest as u64;
                assert(half >> top_rest == 0) by (bit_vector)
                    requires
                        1 <= top < 64,
                        top_rest == top - 1,
                        word >> top == 0,
                        half == word >> 1,
                ;
            } else {
                assert(half >> 63 == 0) by (bit_vector)
                    requires
                        half == word >> 1,
                ;
            }
            lemma_clear_lowest_below(half, rest);
        }
    }
}

/// Clearing the lowest set bit of a word other than zero leaves one set bit
/// fewer, and a smaller word.
pub proof fn lemma_clear_lowest(word: u64)
    requires
        word != 0,
    ensures
        popcount(word & ((word - 1) as u64)) + 1 == popcount(word),
        word & ((word - 1) as u64) < word,
{
    lemma_clear_lowest_below(word, 64);
    let cleared = word & ((word - 1) as u64);
    assert(cleared < word) by (bit_vector)
        requires
            word != 0,
            cleared == word & ((word - 1) as u64),
    ;
}

/// Sets bit `pos` of `n` and leaves the other bits as they are.
pub fn set_bit(n: u64, pos: u8) -> (word: u64)
    requires
        pos < 64,
    ensures
        word == n | (1u64 << pos),
        forall|k: int| #[trigger] bit_is_set(word, k) <==> (k == pos || bit_is_set(n, k)),
{
    let word = n | (1u64 << pos);
    proof {
        assert forall|k: int| #[trigger] bit_is_set(word, k) <==> (k == pos || bit_is_set(n, k)) by {
            if 0 <= k < 64 {
                let at = k as u64;
                assert(((n | (1u64 << pos)) >> at) & 1 == 1 <==> (at == pos || (n >> at) & 1 == 1))
                    by (bit_vector)
                    requires
                        at < 64,
                        pos < 64,
                ;
            }
        }
    }
    word
}

/// Counts the set bits of `x`, clearing the lowest set bit until none is
/// left.
pub fn count_bits(x: u64) -> (count: u8)
    ensures
        count == popcount(x),
{
    let mut y = x;
    let mut count = 0u8;
    while y != 0
        invariant
            count + popcount(y) == popcount(x),
        decreases y,
    {
        proof {
            lemma_clear_lowest(y);
            lemma_popcount_range(x);
        }
        count += 1;
        y = y & (y - 1);
    }
    proof {
        lemma_popcount_range(y);
    }
    count
}

} // verus!
