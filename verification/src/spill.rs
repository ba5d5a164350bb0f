//! Bucket-partitioned aggregation spill: the bucket metadata attached to
//! spilled units of grouped-aggregation state, partitioning of in-memory
//! state into buckets, and the grouped restore that precedes the merge.

use vstd::prelude::*;

use crate::PlanError;

verus! {

/// Metadata attached to one serialized unit of aggregation state: the
/// signed bucket index, negative values reserved for state that was never
/// partitioned and is finalized directly.
#[derive(Clone, Copy, PartialEq, Eq, Structural, Debug)]
pub struct AggregateSerdeMeta {
    pub bucket: isize,
}

impl AggregateSerdeMeta {
    pub fn create(bucket: isize) -> (r: Self)
        ensures
            r.bucket == bucket,
    {
        AggregateSerdeMeta { bucket }
    }

    /// Structural comparison: exact integer equality of bucket indices.
    pub fn equals(&self, other: &AggregateSerdeMeta) -> (r: bool)
        ensures
            r == (self.bucket == other.bucket),
    {
        self.bucket == other.bucket
    }

    pub fn clone_self(&self) -> (r: Self)
        ensures
            r == *self,
    {
        AggregateSerdeMeta { bucket: self.bucket }
    }
}

/// Whether a unit carries a real bucket index, as opposed to the
/// unpartitioned/final sentinel.
pub open spec fn is_partitioned(m: AggregateSerdeMeta) -> bool {
    m.bucket >= 0
}

/// Two units may merge exactly when their bucket indices are equal.
pub open spec fn merge_compatible(a: AggregateSerdeMeta, b: AggregateSerdeMeta) -> bool {
    a.bucket == b.bucket
}

/// A unit with the unpartitioned/final sentinel never merges with a
/// partitioned unit, and units of two different buckets never merge.
pub proof fn lemma_sentinel_never_merges(a: AggregateSerdeMeta, b: AggregateSerdeMeta)
    requires
        is_partitioned(a),
        !is_partitioned(b),
    ensures
        !merge_compatible(a, b),
{
}

/// One unit of spilled aggregation state: its bucket metadata and its rows,
/// each a group key with its accumulator state.
#[derive(Clone, PartialEq, Eq, Debug)]
pub struct SpillUnit {
    pub meta: AggregateSerdeMeta,
    pub rows: Vec<(u64, u64)>,
}

/// The rows of a hash table that fall into one bucket, in table order:
/// those whose group key hashes to the bucket index.
pub open spec fn bucket_rows(entries: Seq<(u64, u64)>, n: int, b: int) -> Seq<(u64, u64)> {
    entries.filter(|e: (u64, u64)| e.0 as int % n == b)
}

/// Appending an entry extends exactly the one bucket its key hashes to.
proof fn lemma_bucket_rows_push(entries: Seq<(u64, u64)>, n: int, b: int, e: (u64, u64))
    ensures
        bucket_rows(entries.push(e), n, b) == (if e.0 as int % n == b {
            bucket_rows(entries, n, b).push(e)
        } else {
            bucket_rows(entries, n, b)
        }),
{
    reveal(Seq::filter);
    assert(entries.push(e).drop_last() =~= entries);
    assert(entries.push(e).last() == e);
}

/// Partitions an in-memory aggregation hash table into `num_buckets`
/// spill units by a hash of the group key; every row lands in exactly the
/// unit its key hashes to, and each unit keeps table order.
pub fn partition_into_buckets(entries: &Vec<(u64, u64)>, num_buckets: usize) -> (r: Vec<SpillUnit>)
    requires
        1 <= num_buckets <= 0x7fff_ffff,
    ensures
        r@.len() == num_buckets,
        forall|b: int|
            0 <= b < num_buckets ==> (#[trigger] r@[b]).meta.bucket == b && r@[b].rows@
                == bucket_rows(entries@, num_buckets as int, b),
{
    let mut r: Vec<SpillUnit> = Vec::new();
    let mut b: usize = 0;
    while b < num_buckets
        invariant
            1 <= num_buckets <= 0x7fff_ffff,
            0 <= b <= num_buckets,
            r@.len() == b,
            forall|k: int|
                0 <= k < b ==> (#[trigger] r@[k]).meta.bucket == k && r@[k].rows@ == bucket_rows(
                    entries@,
                    num_buckets as int,
                    k,
                ),
        decreases num_buckets - b,
    {
        let mut rows: Vec<(u64, u64)> = Vec::new();
        let mut i: usize = 0;
        proof {
            assert(entries@.take(0) =~= Seq::<(u64, u64)>::empty());
            reveal(Seq::filter);
        }
        while i < entries.len()
            invariant
                1 <= num_buckets <= 0x7fff_ffff,
                b < num_buckets,
                0 <= i <= entries@.len(),
                rows@ == bucket_rows(entries@.take(i as int), num_buckets as int, b as int),
            decreases entries@.len() - i,
        {
            proof {
                assert(entries@.take(i + 1) =~= entries@.take(i as int).push(entries@[i as int]));
                lemma_bucket_rows_push(
                    entries@.take(i as int),
                    num_buckets as int,
                    b as int,
                    entries@[i as int],
                );
            }
            let e = entries[i];
            if e.0 % (num_buckets as u64) == (b as u64) {
                rows.push(e);
            }
            i += 1;
        }
        proof {
            assert(entries@.take(entries@.len() as int) =~= entries@);
        }
        r.push(SpillUnit { meta: AggregateSerdeMeta { bucket: b as isize }, rows });
        b += 1;
    }
    r
}

/// The concatenation, in arrival order, of the rows of every unit whose
/// bucket index equals `b`.
pub open spec fn gathered_rows(units: Seq<SpillUnit>, b: int) -> Seq<(u64, u64)>
    decreases units.len(),
{
    if units.len() == 0 {
        Seq::empty()
    } else {
        gathered_rows(units.drop_last(), b) + (if units.last().meta.bucket == b {
            units.last().rows@
        } else {
            Seq::empty()
        })
    }
}

/// Whether some unit carries bucket index `b`.
pub open spec fn bucket_present(units: Seq<SpillUnit>, b: int) -> bool {
    exists|i: int| 0 <= i < units.len() && (#[trigger] units[i]).meta.bucket == b
}

/// Groups spilled units strictly by equal bucket index — never by
/// re-hashing — into one unit per expected bucket, so per-bucket work can
/// resume independently. A bucket with no unit at all is a detected fault,
/// distinct from a present unit with zero rows; units carrying the
/// unpartitioned sentinel are left to direct finalization and not grouped.
pub fn restore_grouped(units: &Vec<SpillUnit>, num_buckets: usize) -> (r: Result<
    Vec<SpillUnit>,
    PlanError,
>)
    requires
        1 <= num_buckets <= 0x7fff_ffff,
    ensures
        r is Ok <==> (forall|b: int| 0 <= b < num_buckets ==> bucket_present(units@, b)),
        r matches Ok(out) ==> out@.len() == num_buckets && forall|b: int|
            0 <= b < num_buckets ==> (#[trigger] out@[b]).meta.bucket == b && out@[b].rows@
                == gathered_rows(units@, b),
        r matches Err(e) ==> (e matches PlanError::MissingBucket { bucket } && 0 <= bucket
            < num_buckets && !bucket_present(units@, bucket as int)),
{
    let mut out: Vec<SpillUnit> = Vec::new();
    let mut b: usize = 0;
    while b < num_buckets
        invariant
            1 <= num_buckets <= 0x7fff_ffff,
            0 <= b <= num_buckets,
            out@.len() == b,
            forall|k: int|
                0 <= k < b ==> (#[trigger] out@[k]).meta.bucket == k && out@[k].rows@
                    == gathered_rows(units@, k),
            forall|k: int| 0 <= k < b ==> bucket_present(units@, k),
        decreases num_buckets - b,
    {
        let mut rows: Vec<(u64, u64)> = Vec::new();
        let mut found: bool = false;
        let mut i: usize = 0;
        proof {
            assert(units@.take(0) =~= Seq::<SpillUnit>::empty());
        }
        while i < units.len()
            invariant
                b < num_buckets <= 0x7fff_ffff,
                0 <= i <= units@.len(),
                rows@ == gathered_rows(units@.take(i as int), b as int),
                found <==> bucket_present(units@.take(i as int), b as int),
            decreases units@.len() - i,
        {
            proof {
                assert(units@.take(i + 1) =~= units@.take(i as int).push(units@[i as int]));
                assert(units@.take(i + 1).drop_last() =~= units@.take(i as int));
                assert(units@.take(i + 1).last() == units@[i as int]);
            }
            let unit = &units[i];
            if unit.meta.bucket == (b as isize) {
                found = true;
                let mut j: usize = 0;
                let ghost rows_before = rows@;
                while j < unit.rows.len()
                    invariant
                        i < units@.len(),
                        unit == units@[i as int],
                        0 <= j <= unit.rows@.len(),
                        rows@ == rows_before + unit.rows@.take(j as int),
                    decreases unit.rows@.len() - j,
                {
                    proof {
                        assert(unit.rows@.take(j + 1) =~= unit.rows@.take(j as int).push(
                            unit.rows@[j as int],
                        ));
                    }
                    rows.push(unit.rows[j]);
                    j += 1;
                }
                proof {
                    assert(unit.rows@.take(unit.rows@.len() as int) =~= unit.rows@);
                }
            }
            proof {
                lemma_bucket_present_take(units@, i as int, b as int);
                assert(b < num_buckets <= 0x7fff_ffff);
                assert((b as isize) as int == b as int);
                let prefix = gathered_rows(units@.take(i as int), b as int);
                assert(prefix + Seq::<(u64, u64)>::empty() =~= prefix);
                assert(units@.take(i + 1).len() == i + 1);
                assert(units@.take(i + 1).drop_last() == units@.take(i as int));
                assert(units@.take(i + 1).last() == units@[i as int]);
                assert(gathered_rows(units@.take(i + 1), b as int) == prefix + (
                if units@[i as int].meta.bucket == b as int {
                    units@[i as int].rows@
                } else {
                    Seq::<(u64, u64)>::empty()
                }));
            }
            i += 1;
        }
        proof {
            assert(units@.take(units@.len() as int) =~= units@);
        }
        if !found {
            return Err(PlanError::MissingBucket { bucket: b as isize });
        }
        out.push(SpillUnit { meta: AggregateSerdeMeta { bucket: b as isize }, rows });
        b += 1;
    }
    Ok(out)
}

/// Extending a prefix by one unit makes a bucket present exactly when it
/// already was, or the new unit carries it.
proof fn lemma_bucket_present_take(units: Seq<SpillUnit>, i: int, b: int)
    requires
        0 <= i < units.len(),
    ensures
        bucket_present(units.take(i + 1), b) <==> (bucket_present(units.take(i), b)
            || units[i].meta.bucket == b),
{
    if bucket_present(units.take(i + 1), b) {
        let w = choose|w: int|
            0 <= w < units.take(i + 1).len() && (#[trigger] units.take(i + 1)[w]).meta.bucket == b;
        if w < i {
            assert(units.take(i)[w].meta.bucket == b);
            assert(bucket_present(units.take(i), b));
        } else {
            assert(units[i].meta.bucket == b);
        }
    }
    if bucket_present(units.take(i), b) {
        let w = choose|w: int|
            0 <= w < units.take(i).len() && (#[trigger] units.take(i)[w]).meta.bucket == b;
        assert(units.take(i + 1)[w].meta.bucket == b);
    }
    if units[i].meta.bucket == b {
        assert(units.take(i + 1)[i].meta.bucket == b);
    }
}

/// Merges two compatible units — equal bucket index — into one, restored
/// rows first, remaining in-memory rows after.
pub fn merge_units(a: SpillUnit, b: SpillUnit) -> (r: SpillUnit)
    requires
        merge_compatible(a.meta, b.meta),
    ensures
        r.meta == a.meta,
        r.rows@ == a.rows@ + b.rows@,
{
    let mut rows = a.rows;
    let mut tail = b.rows;
    rows.append(&mut tail);
    SpillUnit { meta: a.meta, rows }
}

/// The spill lifecycle of one aggregation operator instance. Transitions
/// are one-way: once spilling begins, direct insertion never resumes.
#[derive(Clone, Copy, PartialEq, Eq, Structural, Debug)]
pub enum SpillPhase {
    Accumulating,
    Spilling,
    Restoring,
    Merging,
    Done,
}

impl SpillPhase {
    /// The successor in the one-way lifecycle.
    pub open spec fn next_spec(self) -> SpillPhase {
        match self {
            SpillPhase::Accumulating => SpillPhase::Spilling,
            SpillPhase::Spilling => SpillPhase::Restoring,
            SpillPhase::Restoring => SpillPhase::Merging,
            SpillPhase::Merging => SpillPhase::Done,
            SpillPhase::Done => SpillPhase::Done,
        }
    }

    /// Advances the lifecycle one step; the finished state is absorbing.
    pub fn advance(self) -> (r: SpillPhase)
        ensures
            r == self.next_spec(),
    {
        match self {
            SpillPhase::Accumulating => SpillPhase::Spilling,
            SpillPhase::Spilling => SpillPhase::Restoring,
            SpillPhase::Restoring => SpillPhase::Merging,
            SpillPhase::Merging => SpillPhase::Done,
            SpillPhase::Done => SpillPhase::Done,
        }
    }
}

} // verus!
