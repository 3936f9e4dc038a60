//! Patch descriptors and their discrepancy.

use vstd::prelude::*;
use crate::bits::{count_bits, lemma_popcount_range, popcount};

verus! {

/// The rare bins of a patch model: bit `h` of word `i` says that bin `i` is
/// rare at location `h`.
pub type PatchDescriptor = [u64; 5];

/// The number of set bits in all five words of a descriptor.
pub open spec fn weight(descriptor: Seq<u64>) -> nat {
    popcount(descriptor[0]) + popcount(descriptor[1]) + popcount(descriptor[2]) + popcount(
        descriptor[3],
    ) + popcount(descriptor[4])
}

/// The descriptor that marks what both `a` and `b` mark.
pub open spec fn common(a: Seq<u64>, b: Seq<u64>) -> Seq<u64> {
    Seq::new(5, |i: int| a[i] & b[i])
}

/// The number of places, location and bin, that both descriptors mark.
pub open spec fn overlap(a: Seq<u64>, b: Seq<u64>) -> nat {
    weight(common(a, b))
}

/// The set bits in the first `words` words of a descriptor.
spec fn weight_below(descriptor: Seq<u64>, words: int) -> nat
    decreases words,
{
    if words <= 0 {
        0
    } else {
        weight_below(descriptor, words - 1) + popcount(descriptor[words - 1])
    }
}

/// The number of positions where the sampled patch lies in a bin that is
/// rare in the model.
pub fn discrepancy(patch: &PatchDescriptor, model: &PatchDescriptor) -> (score: u16)
    ensures
        score == overlap(patch@, model@),
        score <= 320,
{
    let ghost both = common(patch@, model@);
    let mut count = 0u16;
    let mut i: usize = 0;
    while i < 5
        invariant
            i <= 5,
            both == common(patch@, model@),
            count == weight_below(both, i as int),
            count <= 64 * i,
        decreases 5 - i,
    {
        let intersect = patch[i] & model[i];
        proof {
            lemma_popcount_range(intersect);
        }
        count += count_bits(intersect) as u16;
        i += 1;
    }
    proof {
        reveal_with_fuel(weight_below, 6);
    }
    count
}

/// A descriptor has at most 320 set bits, and so has what two have in
/// common.
pub proof fn weight_bounded(a: PatchDescriptor, b: PatchDescriptor)
    ensures
        weight(a@) <= 320,
        overlap(a@, b@) <= 320,
{
    let both = common(a@, b@);
    lemma_popcount_range(a[0]);
    lemma_popcount_range(a[1]);
    lemma_popcount_range(a[2]);
    lemma_popcount_range(a[3]);
    lemma_popcount_range(a[4]);
    lemma_popcount_range(both[0]);
    lemma_popcount_range(both[1]);
    lemma_popcount_range(both[2]);
    lemma_popcount_range(both[3]);
    lemma_popcount_range(both[4]);
}

/// The discrepancy does not depend on the order of its two descriptors.
pub proof fn discrepancy_symmetric(a: PatchDescriptor, b: PatchDescriptor)
    ensures
        overlap(a@, b@) == overlap(b@, a@),
{
    assert forall|i: int| 0 <= i < 5 implies (#[trigger] a[i]) & b[i] == b[i] & a[i] by {
        let x = a[i];
        let y = b[i];
        assert(x & y == y & x) by (bit_vector);
    }
    assert(common(a@, b@) =~= common(b@, a@));
}

/// The discrepancy of a descriptor with itself is the number of its set
/// bits.
pub proof fn discrepancy_with_itself(d: PatchDescriptor)
    ensures
        overlap(d@, d@) == weight(d@),
{
    assert forall|i: int| 0 <= i < 5 implies (#[trigger] d[i]) & d[i] == d[i] by {
        let x = d[i];
        assert(x & x == x) by (bit_vector);
    }
    assert(common(d@, d@) =~= d@);
}

/// The discrepancy with a descriptor that marks nothing is 0.
pub proof fn discrepancy_with_nothing(d: PatchDescriptor, empty: PatchDescriptor)
    requires
        forall|i: int| 0 <= i < 5 ==> empty[i] == 0,
    ensures
        overlap(d@, empty@) == 0,
        overlap(empty@, d@) == 0,
{
    assert forall|i: int| 0 <= i < 5 implies (#[trigger] d[i]) & empty[i] == 0 by {
        let x = d[i];
        assert(x & 0 == 0) by (bit_vector);
    }
    lemma_popcount_range(0);
    discrepancy_symmetric(d, empty);
}

} // verus!
