//! Per-location intensity histograms and their quantisation.

use vstd::prelude::*;
use crate::bits::{bit_is_set, lemma_popcount_range, set_bit};
use crate::descriptor::{weight, PatchDescriptor};

verus! {

/// Width of one intensity bin.
pub const BIN_WIDTH: u8 = 52;

/// A bin is rare at a location when it holds fewer than this many percent
/// of the samples seen there.
pub const RARE_PERCENT: u64 = 5;

/// Counts of the samples seen at one location, by intensity bin.
pub type PointHist = [u32; 5];

/// The bin that an intensity falls into.
pub open spec fn bin_of(value: u8) -> int {
    value as int / BIN_WIDTH as int
}

/// An intensity of at least another's never lies in a lower bin.
pub proof fn bin_monotonic(low: u8, high: u8)
    requires
        low <= high,
    ensures
        bin_of(low) <= bin_of(high),
{
}

/// Intensity bin of `value`: one of the five bins 0 to 4.
pub fn bin(value: u8) -> (index: u8)
    ensures
        index == bin_of(value),
        index <= 4,
{
    value / BIN_WIDTH
}

/// The number of samples that a histogram has counted.
pub open spec fn total(hist: Seq<nat>) -> nat {
    hist[0] + hist[1] + hist[2] + hist[3] + hist[4]
}

/// Whether `bin` is rare in `hist`: the histogram has counted something,
/// and fewer than `RARE_PERCENT` percent of it in this bin.
pub open spec fn is_rare(hist: Seq<nat>, bin: int) -> bool {
    total(hist) > 0 && 100 * hist[bin] < RARE_PERCENT * total(hist)
}

/// Where a histogram has counted anything, at least one of its bins is not
/// rare.
pub proof fn some_bin_is_common(hist: Seq<nat>)
    ensures
        !(is_rare(hist, 0) && is_rare(hist, 1) && is_rare(hist, 2) && is_rare(hist, 3) && is_rare(
            hist,
            4,
        )),
{
}

/// The histograms after one more patch: at each location the bin of the
/// patch's intensity there has counted one more.
pub open spec fn tallied(hists: Seq<Seq<nat>>, sample: Seq<u8>) -> Seq<Seq<nat>> {
    Seq::new(
        64,
        |h: int| hists[h].update(bin_of(sample[h]), hists[h][bin_of(sample[h])] + 1),
    )
}

/// Counting a patch lowers no count, and raises the number of samples seen
/// at every location by one.
pub proof fn tallied_grows(hists: Seq<Seq<nat>>, sample: Seq<u8>, location: int)
    requires
        0 <= location < 64,
        hists[location].len() == 5,
    ensures
        forall|i: int| 0 <= i < 5 ==> tallied(hists, sample)[location][i] >= hists[location][i],
        total(tallied(hists, sample)[location]) == total(hists[location]) + 1,
{
}

/// Histograms of the intensities seen at each of the 64 locations of an
/// 8x8 patch.
pub struct PatchModel {
    hists: [PointHist; 64],
}

impl View for PatchModel {
    type V = Seq<Seq<nat>>;

    /// The 64 histograms, each as its 5 counts.
    open spec fn view(&self) -> Seq<Seq<nat>> {
        Seq::new(64, |h: int| Seq::new(5, |i: int| self.count(h, i)))
    }
}

impl PatchModel {
    /// The number of samples seen at `location` that fell into `bin`.
    pub closed spec fn count(&self, location: int, bin: int) -> nat {
        self.hists[location][bin] as nat
    }

    /// A model that has seen no patch.
    pub fn new() -> (model: PatchModel)
        ensures
            forall|h: int, i: int| 0 <= h < 64 && 0 <= i < 5 ==> #[trigger] model@[h][i] == 0,
    {
        PatchModel { hists: [[0u32; 5]; 64] }
    }

    /// The histogram of one location.
    pub fn histogram(&self, location: usize) -> (hist: PointHist)
        requires
            location < 64,
        ensures
            forall|i: int| 0 <= i < 5 ==> #[trigger] hist[i] == self@[location as int][i],
    {
        let hist = self.hists[location];
        assert forall|i: int| 0 <= i < 5 implies #[trigger] hist[i] == self@[location as int][i] by {
            assert(self.count(location as int, i) == hist[i]);
        }
        hist
    }

    /// Adds a patch of normalised intensities to the histograms.
    pub fn add_sample(&mut self, sample: &[u8; 64])
        requires
            forall|h: int| 0 <= h < 64 ==> old(self)@[h][bin_of(#[trigger] sample[h])] < u32::MAX,
        ensures
            final(self)@ == tallied(old(self)@, sample@),
    {
        let mut i: usize = 0;
        while i < 64
            invariant
                i <= 64,
                forall|h: int| 0 <= h < 64 ==> old(self)@[h][bin_of(#[trigger] sample[h])] < u32::MAX,
                forall|h: int, b: int|
                    0 <= h < 64 && 0 <= b < 5 ==> #[trigger] self.count(h, b) == if h < i {
                        tallied(old(self)@, sample@)[h][b]
                    } else {
                        old(self)@[h][b]
                    },
            decreases 64 - i,
        {
            let b: usize = bin(sample[i]) as usize;
            let ghost before = *self;
            assert(before.count(i as int, b as int) == old(self)@[i as int][b as int]);
            self.hists[i][b] += 1;
            assert forall|h: int, c: int| 0 <= h < 64 && 0 <= c < 5 implies #[trigger] self.count(
                h,
                c,
            ) == if h == i && c == b {
                before.count(h, c) + 1
            } else {
                before.count(h, c)
            } by {}
            i += 1;
        }
        assert(self@ =~~= tallied(old(self)@, sample@));
    }

    /// Marks, for each location, the bins that are rare there: bit `h` of
    /// word `i` is set exactly when bin `i` is rare at location `h`.
    ///
    /// A location that has seen no sample has no rare bin.
    pub fn quantise(&self) -> (descriptor: PatchDescriptor)
        ensures
            forall|i: int, h: int|
                0 <= i < 5 && 0 <= h < 64 ==> (#[trigger] bit_is_set(descriptor[i], h) <==> is_rare(
                    self@[h],
                    i,
                )),
            weight(descriptor@) <= 320,
    {
        let mut descriptor = [0u64; 5];
        proof {
            assert forall|i: int, k: int| 0 <= i < 5 implies !#[trigger] bit_is_set(descriptor[i], k) by {
                if 0 <= k < 64 {
                    let at = k as u64;
                    assert((0u64 >> at) & 1 == 0) by (bit_vector);
                }
            }
        }
        let mut h: usize = 0;
        while h < 64
            invariant
                h <= 64,
                forall|i: int, k: int|
                    0 <= i < 5 && 0 <= k < 64 ==> (#[trigger] bit_is_set(descriptor[i], k) <==> k < h
                        && is_rare(self@[k], i)),
            decreases 64 - h,
        {
            let hist = self.hists[h];
            let sum: u64 = hist[0] as u64 + hist[1] as u64 + hist[2] as u64 + hist[3] as u64
                + hist[4] as u64;
            let mut i: usize = 0;
            while i < 5
                invariant
                    i <= 5,
                    h < 64,
                    hist == self.hists[h as int],
                    sum == total(self@[h as int]),
                    forall|j: int, k: int|
                        0 <= j < 5 && 0 <= k < 64 ==> (#[trigger] bit_is_set(descriptor[j], k) <==> (k
                            < h || (k == h && j < i)) && is_rare(self@[k], j)),
                decreases 5 - i,
            {
                if sum > 0 && 100 * (hist[i] as u64) < RARE_PERCENT * sum {
                    descriptor[i] = set_bit(descriptor[i], h as u8);
                }
                i += 1;
            }
            h += 1;
        }
        proof {
            lemma_popcount_range(descriptor[0]);
            lemma_popcount_range(descriptor[1]);
            lemma_popcount_range(descriptor[2]);
            lemma_popcount_range(descriptor[3]);
            lemma_popcount_range(descriptor[4]);
        }
        descriptor
    }
}

} // verus!
