//! Equi-depth histograms: an ordered sequence of buckets, each carrying an
//! upper bound, a row count and a distinct-value estimate, with aggregate
//! readings that are plain reductions over the buckets.

use vstd::prelude::*;

use crate::scalar::Scalar;

verus! {

/// One histogram bucket: the values at or below `upper_bound` (and above
/// the previous bucket's), their count and their distinct-value estimate.
#[derive(Clone, PartialEq, Debug)]
pub struct HistogramBucket {
    pub upper_bound: Scalar,
    pub count: u64,
    pub ndv: u64,
}

impl HistogramBucket {
    pub fn new(upper_bound: Scalar, count: u64, ndv: u64) -> (r: Self)
        ensures
            r.upper_bound == upper_bound,
            r.count == count,
            r.ndv == ndv,
    {
        HistogramBucket { upper_bound, count, ndv }
    }
}

/// Sum of the bucket row counts of a bucket sequence.
pub open spec fn sum_counts(s: Seq<HistogramBucket>) -> int
    decreases s.len(),
{
    if s.len() == 0 {
        0
    } else {
        sum_counts(s.drop_last()) + s.last().count
    }
}

/// Sum of the bucket distinct-value estimates of a bucket sequence.
pub open spec fn sum_ndvs(s: Seq<HistogramBucket>) -> int
    decreases s.len(),
{
    if s.len() == 0 {
        0
    } else {
        sum_ndvs(s.drop_last()) + s.last().ndv
    }
}

/// A prefix's sums are bounded by the whole sequence's sums, and sums are
/// never negative.
pub proof fn lemma_sum_take(s: Seq<HistogramBucket>, i: int)
    requires
        0 <= i <= s.len(),
    ensures
        0 <= sum_counts(s.take(i)) <= sum_counts(s),
        0 <= sum_ndvs(s.take(i)) <= sum_ndvs(s),
    decreases s.len() - i,
{
    if i == s.len() {
        assert(s.take(i) =~= s);
        lemma_sum_nonneg(s);
    } else {
        lemma_sum_take(s, i + 1);
        assert(s.take(i + 1).drop_last() =~= s.take(i));
        assert(s.take(i + 1).last() == s[i]);
        lemma_sum_nonneg(s.take(i));
    }
}

/// Bucket sums are never negative.
pub proof fn lemma_sum_nonneg(s: Seq<HistogramBucket>)
    ensures
        sum_counts(s) >= 0,
        sum_ndvs(s) >= 0,
    decreases s.len(),
{
    if s.len() > 0 {
        lemma_sum_nonneg(s.drop_last());
    }
}

/// An equi-depth distribution summary over one column.
#[derive(Clone, PartialEq, Debug)]
pub struct Histogram {
    pub buckets: Vec<HistogramBucket>,
}

impl Histogram {
    /// Well-formedness: the aggregate readings fit the machine word.
    pub open spec fn wf(self) -> bool {
        sum_counts(self.buckets@) <= u64::MAX && sum_ndvs(self.buckets@) <= u64::MAX
    }

    pub fn new(buckets: Vec<HistogramBucket>) -> (r: Self)
        requires
            sum_counts(buckets@) <= u64::MAX,
            sum_ndvs(buckets@) <= u64::MAX,
        ensures
            r.buckets == buckets,
            r.wf(),
    {
        Histogram { buckets }
    }

    /// How many buckets the histogram holds.
    pub fn num_buckets(&self) -> (r: usize)
        ensures
            r == self.buckets@.len(),
    {
        self.buckets.len()
    }

    /// Total value count: the sum of the bucket counts.
    pub fn num_values(&self) -> (r: u64)
        requires
            self.wf(),
        ensures
            r == sum_counts(self.buckets@),
    {
        let n: usize = self.buckets.len();
        let mut acc: u64 = 0;
        let mut i: usize = 0;
        proof {
            assert(self.buckets@.take(0) =~= Seq::<HistogramBucket>::empty());
        }
        while i < n
            invariant
                self.wf(),
                n == self.buckets@.len(),
                0 <= i <= n,
                acc == sum_counts(self.buckets@.take(i as int)),
            decreases n - i,
        {
            proof {
                lemma_sum_take(self.buckets@, i + 1);
                assert(self.buckets@.take(i + 1).drop_last() =~= self.buckets@.take(i as int));
                assert(self.buckets@.take(i + 1).last() == self.buckets@[i as int]);
            }
            acc = acc + self.buckets[i].count;
            i += 1;
        }
        proof {
            assert(self.buckets@.take(n as int) =~= self.buckets@);
        }
        acc
    }

    /// Total distinct-value estimate: the sum of the bucket estimates.
    pub fn num_distinct_values(&self) -> (r: u64)
        requires
            self.wf(),
        ensures
            r == sum_ndvs(self.buckets@),
    {
        let n: usize = self.buckets.len();
        let mut acc: u64 = 0;
        let mut i: usize = 0;
        proof {
            assert(self.buckets@.take(0) =~= Seq::<HistogramBucket>::empty());
        }
        while i < n
            invariant
                self.wf(),
                n == self.buckets@.len(),
                0 <= i <= n,
                acc == sum_ndvs(self.buckets@.take(i as int)),
            decreases n - i,
        {
            proof {
                lemma_sum_take(self.buckets@, i + 1);
                assert(self.buckets@.take(i + 1).drop_last() =~= self.buckets@.take(i as int));
                assert(self.buckets@.take(i + 1).last() == self.buckets@[i as int]);
            }
            acc = acc + self.buckets[i].ndv;
            i += 1;
        }
        proof {
            assert(self.buckets@.take(n as int) =~= self.buckets@);
        }
        acc
    }
}

} // verus!
