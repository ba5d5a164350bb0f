//! Current-format table, column and cluster statistics: construction,
//! typed read-back, partition aggregation, and migration from the older
//! on-disk representation.

use vstd::prelude::*;

use crate::legacy::fits;
use crate::legacy::from_scalar;
use crate::legacy::retyped;
use crate::legacy::ClusterStatisticsV0;
use crate::legacy::ColumnStatisticsV0;
use crate::legacy::StatisticsV0;
use crate::scalar::index_eq;
use crate::scalar::index_le_spec;
use crate::scalar::same_class;
use crate::scalar::DataType;
use crate::scalar::IndexScalar;
use crate::scalar::Scalar;

verus! {

/// Per-column distribution summary of one written data partition.
#[derive(Clone, PartialEq, Eq, Debug)]
pub struct ColumnStatistics {
    pub min: IndexScalar,
    pub max: IndexScalar,
    pub null_count: u64,
    pub in_memory_size: u64,
    pub distinct_of_values: Option<u64>,
}

/// Per-column clustering summary: one min/max bound pair per clustering
/// dimension, a compaction level, and optional per-page bounds.
#[derive(Clone, PartialEq, Eq, Debug)]
pub struct ClusterStatistics {
    pub cluster_key_id: u32,
    pub min: Vec<IndexScalar>,
    pub max: Vec<IndexScalar>,
    pub level: i32,
    pub pages: Option<Vec<IndexScalar>>,
}

/// Table-level statistics aggregate: row and block counts, byte sizes,
/// the per-column statistics mapping, and an optional cluster record.
#[derive(Clone, PartialEq, Eq, Debug)]
pub struct Statistics {
    pub row_count: u64,
    pub block_count: u64,
    pub perfect_block_count: u64,
    pub uncompressed_byte_size: u64,
    pub compressed_byte_size: u64,
    pub index_size: u64,
    pub col_stats: Vec<(u32, ColumnStatistics)>,
    pub cluster_stats: Option<ClusterStatistics>,
}

impl ColumnStatistics {
    pub fn new(
        min: Scalar,
        max: Scalar,
        null_count: u64,
        in_memory_size: u64,
        distinct_of_values: Option<u64>,
    ) -> (r: Self)
        requires
            min.is_indexable(),
            max.is_indexable(),
        ensures
            r.min == min.to_index_spec(),
            r.max == max.to_index_spec(),
            r.null_count == null_count,
            r.in_memory_size == in_memory_size,
            r.distinct_of_values == distinct_of_values,
    {
        let min_index = match min.into_index() {
            Some(v) => v,
            None => IndexScalar::Number(0),
        };
        let max_index = match max.into_index() {
            Some(v) => v,
            None => IndexScalar::Number(0),
        };
        ColumnStatistics { min: min_index, max: max_index, null_count, in_memory_size, distinct_of_values }
    }

    /// The typed minimum bound.
    pub fn min(&self) -> (r: Scalar)
        ensures
            r.is_indexable(),
            index_eq(r.to_index_spec(), self.min),
    {
        copy_index(&self.min).into_scalar()
    }

    /// The typed maximum bound.
    pub fn max(&self) -> (r: Scalar)
        ensures
            r.is_indexable(),
            index_eq(r.to_index_spec(), self.max),
    {
        copy_index(&self.max).into_scalar()
    }

    /// Migrates an older-format column record under the column's declared
    /// type: bounds are retyped, counts carried over exactly, and the
    /// distinct-value count — absent from the older format — stays absent.
    /// A column whose type is not bound-comparable yields no record.
    pub fn from_v0(v0: &ColumnStatisticsV0, data_type: &DataType) -> (r: Option<Self>)
        requires
            data_type.is_bound_comparable() ==> fits(v0.min, data_type.kind) && fits(
                v0.max,
                data_type.kind,
            ),
        ensures
            r is Some <==> data_type.is_bound_comparable(),
            r matches Some(s) ==> {
                &&& index_eq(s.min, retyped(v0.min, data_type.kind))
                &&& index_eq(s.max, retyped(v0.max, data_type.kind))
                &&& s.null_count == v0.null_count
                &&& s.in_memory_size == v0.in_memory_size
                &&& s.distinct_of_values is None
            },
    {
        if !data_type.remove_nullable().supports_bounds() {
            return None;
        }
        let min = from_scalar(&v0.min, data_type);
        let max = from_scalar(&v0.max, data_type);
        Some(ColumnStatistics {
            min,
            max,
            null_count: v0.null_count,
            in_memory_size: v0.in_memory_size,
            distinct_of_values: None,
        })
    }

    /// Aggregates the records of two disjoint partitions of one column:
    /// the smaller minimum, the larger maximum, summed counts; the
    /// distinct-value count is not summable across partitions and becomes
    /// absent.
    pub fn merge(self, other: Self) -> (r: Self)
        requires
            same_class(self.min, other.min),
            same_class(self.max, other.max),
            self.null_count + other.null_count <= u64::MAX,
            self.in_memory_size + other.in_memory_size <= u64::MAX,
        ensures
            r.min == (if index_le_spec(self.min, other.min) {
                self.min
            } else {
                other.min
            }),
            r.max == (if index_le_spec(self.max, other.max) {
                other.max
            } else {
                self.max
            }),
            r.null_count == self.null_count + other.null_count,
            r.in_memory_size == self.in_memory_size + other.in_memory_size,
            r.distinct_of_values is None,
    {
        let min = if self.min.le(&other.min) {
            self.min
        } else {
            other.min
        };
        let max = if self.max.le(&other.max) {
            other.max
        } else {
            self.max
        };
        ColumnStatistics {
            min,
            max,
            null_count: self.null_count + other.null_count,
            in_memory_size: self.in_memory_size + other.in_memory_size,
            distinct_of_values: None,
        }
    }
}

/// Copies an index scalar; the copy is structurally equal to the source.
pub fn copy_index(v: &IndexScalar) -> (r: IndexScalar)
    ensures
        index_eq(r, *v),
{
    match v {
        IndexScalar::Number(x) => IndexScalar::Number(*x),
        IndexScalar::Date(x) => IndexScalar::Date(*x),
        IndexScalar::Timestamp(x) => IndexScalar::Timestamp(*x),
        IndexScalar::String(b) => IndexScalar::String(crate::legacy::clone_bytes(b)),
        IndexScalar::Decimal { value, scale } => IndexScalar::Decimal {
            value: *value,
            scale: *scale,
        },
    }
}

impl ClusterStatistics {
    pub fn new(
        cluster_key_id: u32,
        min: Vec<Scalar>,
        max: Vec<Scalar>,
        level: i32,
        pages: Option<Vec<Scalar>>,
    ) -> (r: Self)
        requires
            forall|i: int| 0 <= i < min@.len() ==> min@[i].is_indexable(),
            forall|i: int| 0 <= i < max@.len() ==> max@[i].is_indexable(),
            pages matches Some(p) ==> forall|i: int| 0 <= i < p@.len() ==> p@[i].is_indexable(),
        ensures
            r.cluster_key_id == cluster_key_id,
            r.level == level,
            r.min@.len() == min@.len(),
            forall|i: int| 0 <= i < min@.len() ==> index_eq(r.min@[i], min@[i].to_index_spec()),
            r.max@.len() == max@.len(),
            forall|i: int| 0 <= i < max@.len() ==> index_eq(r.max@[i], max@[i].to_index_spec()),
            r.pages is Some <==> pages is Some,
            pages matches Some(p) ==> (r.pages matches Some(rp) && rp@.len() == p@.len()
                && forall|i: int| 0 <= i < p@.len() ==> index_eq(rp@[i], p@[i].to_index_spec())),
    {
        let min = index_all(&min);
        let max = index_all(&max);
        let pages = match pages {
            Some(p) => Some(index_all(&p)),
            None => None,
        };
        ClusterStatistics { cluster_key_id, min, max, level, pages }
    }

    /// The typed minimum bound tuple.
    pub fn min(&self) -> (r: Vec<Scalar>)
        ensures
            r@.len() == self.min@.len(),
            forall|i: int| 0 <= i < r@.len() ==> r@[i].is_indexable() && index_eq(
                r@[i].to_index_spec(),
                self.min@[i],
            ),
    {
        scalar_all(&self.min)
    }

    /// The typed maximum bound tuple.
    pub fn max(&self) -> (r: Vec<Scalar>)
        ensures
            r@.len() == self.max@.len(),
            forall|i: int| 0 <= i < r@.len() ==> r@[i].is_indexable() && index_eq(
                r@[i].to_index_spec(),
                self.max@[i],
            ),
    {
        scalar_all(&self.max)
    }

    /// Whether the partition is constant on the clustering key: every
    /// position of the minimum tuple equals the corresponding position of
    /// the maximum tuple.
    pub fn is_const(&self) -> (r: bool)
        ensures
            r <==> (self.min@.len() == self.max@.len() && forall|i: int|
                0 <= i < self.min@.len() ==> index_eq(self.min@[i], self.max@[i])),
    {
        if self.min.len() != self.max.len() {
            return false;
        }
        let n: usize = self.min.len();
        let mut i: usize = 0;
        while i < n
            invariant
                n == self.min@.len() == self.max@.len(),
                0 <= i <= n,
                forall|j: int| 0 <= j < i ==> index_eq(self.min@[j], self.max@[j]),
            decreases n - i,
        {
            if !self.min[i].equal_to(&self.max[i]) {
                return false;
            }
            i += 1;
        }
        true
    }

    /// Migrates an older-format cluster record under the clustering
    /// column's declared type: bound tuples are retyped, key and level
    /// carried over, and the per-page bounds — absent from the older
    /// format — stay absent. An unsupported type yields no record.
    pub fn from_v0(v0: ClusterStatisticsV0, data_type: &DataType) -> (r: Option<Self>)
        requires
            data_type.is_bound_comparable() ==> (forall|i: int|
                0 <= i < v0.min@.len() ==> fits(v0.min@[i], data_type.kind)) && (forall|i: int|
                0 <= i < v0.max@.len() ==> fits(v0.max@[i], data_type.kind)),
        ensures
            r is Some <==> data_type.is_bound_comparable(),
            r matches Some(s) ==> {
                &&& s.cluster_key_id == v0.cluster_key_id
                &&& s.level == v0.level
                &&& s.pages is None
                &&& s.min@.len() == v0.min@.len()
                &&& forall|i: int|
                    0 <= i < v0.min@.len() ==> index_eq(s.min@[i], retyped(v0.min@[i], data_type.kind))
                &&& s.max@.len() == v0.max@.len()
                &&& forall|i: int|
                    0 <= i < v0.max@.len() ==> index_eq(s.max@[i], retyped(v0.max@[i], data_type.kind))
            },
    {
        if !data_type.remove_nullable().supports_bounds() {
            return None;
        }
        let min = retype_all(&v0.min, data_type);
        let max = retype_all(&v0.max, data_type);
        Some(ClusterStatistics {
            cluster_key_id: v0.cluster_key_id,
            min,
            max,
            level: v0.level,
            pages: None,
        })
    }
}

/// Strictly increasing column identifiers in an older-format mapping.
pub open spec fn keys_sorted_v0(s: Seq<(u32, ColumnStatisticsV0)>) -> bool {
    forall|i: int, j: int| 0 <= i < j < s.len() ==> s[i].0 < s[j].0
}

/// Strictly increasing column identifiers in a current-format mapping.
pub open spec fn keys_sorted(s: Seq<(u32, ColumnStatistics)>) -> bool {
    forall|i: int, j: int| 0 <= i < j < s.len() ==> s[i].0 < s[j].0
}

/// The older-format entries that survive migration: those whose column's
/// declared type is bound-comparable.
pub open spec fn surviving_entries(
    s: Seq<(u32, ColumnStatisticsV0)>,
    fields: Seq<DataType>,
) -> Seq<(u32, ColumnStatisticsV0)> {
    s.filter(|e: (u32, ColumnStatisticsV0)| fields[e.0 as int].is_bound_comparable())
}

/// How a migrated column record relates to its older-format source.
pub open spec fn matches_migrated(
    c: ColumnStatistics,
    v: ColumnStatisticsV0,
    kind: crate::scalar::TypeKind,
) -> bool {
    &&& index_eq(c.min, retyped(v.min, kind))
    &&& index_eq(c.max, retyped(v.max, kind))
    &&& c.null_count == v.null_count
    &&& c.in_memory_size == v.in_memory_size
    &&& c.distinct_of_values is None
}

/// Appending an entry to an older-format mapping appends it to the
/// surviving entries exactly when its column's type is bound-comparable.
proof fn lemma_surviving_push(
    s: Seq<(u32, ColumnStatisticsV0)>,
    fields: Seq<DataType>,
    e: (u32, ColumnStatisticsV0),
)
    ensures
        surviving_entries(s.push(e), fields) == (if fields[e.0 as int].is_bound_comparable() {
            surviving_entries(s, fields).push(e)
        } else {
            surviving_entries(s, fields)
        }),
{
    reveal(Seq::filter);
    assert(s.push(e).drop_last() =~= s);
    assert(s.push(e).last() == e);
}

impl Statistics {
    /// Well-formedness: one entry per column, keys strictly increasing.
    pub open spec fn wf(self) -> bool {
        keys_sorted(self.col_stats@)
    }

    /// Migrates an older-format table record under the table's declared
    /// column types, indexed by column identifier. Counts and sizes are
    /// carried over exactly; each column entry is retyped, and a column
    /// whose declared type is not bound-comparable is dropped from the
    /// mapping; the cluster record — whose older format is not carried at
    /// table level — stays absent.
    pub fn from_v0(v0: StatisticsV0, fields: &Vec<DataType>) -> (r: Self)
        requires
            keys_sorted_v0(v0.col_stats@),
            forall|i: int| 0 <= i < v0.col_stats@.len() ==> v0.col_stats@[i].0 < fields@.len(),
            forall|i: int|
                0 <= i < v0.col_stats@.len() && fields@[v0.col_stats@[i].0 as int].is_bound_comparable()
                    ==> fits(v0.col_stats@[i].1.min, fields@[v0.col_stats@[i].0 as int].kind) && fits(
                    v0.col_stats@[i].1.max,
                    fields@[v0.col_stats@[i].0 as int].kind,
                ),
        ensures
            r.row_count == v0.row_count,
            r.block_count == v0.block_count,
            r.perfect_block_count == v0.perfect_block_count,
            r.uncompressed_byte_size == v0.uncompressed_byte_size,
            r.compressed_byte_size == v0.compressed_byte_size,
            r.index_size == v0.index_size,
            r.cluster_stats is None,
            r.col_stats@.len() == surviving_entries(v0.col_stats@, fields@).len(),
            forall|j: int|
                #![trigger r.col_stats@[j]]
                0 <= j < r.col_stats@.len() ==> {
                    let kept = surviving_entries(v0.col_stats@, fields@)[j];
                    r.col_stats@[j].0 == kept.0 && matches_migrated(
                        r.col_stats@[j].1,
                        kept.1,
                        fields@[kept.0 as int].kind,
                    )
                },
            r.wf(),
    {
        let mut col_stats: Vec<(u32, ColumnStatistics)> = Vec::new();
        let n: usize = v0.col_stats.len();
        proof {
            assert(v0.col_stats@.take(0) =~= Seq::<(u32, ColumnStatisticsV0)>::empty());
            reveal(Seq::filter);
        }
        let mut i: usize = 0;
        while i < n
            invariant
                n == v0.col_stats@.len(),
                keys_sorted_v0(v0.col_stats@),
                forall|k: int| 0 <= k < n ==> v0.col_stats@[k].0 < fields@.len(),
                forall|k: int|
                    0 <= k < n && fields@[v0.col_stats@[k].0 as int].is_bound_comparable() ==> fits(
                        v0.col_stats@[k].1.min,
                        fields@[v0.col_stats@[k].0 as int].kind,
                    ) && fits(v0.col_stats@[k].1.max, fields@[v0.col_stats@[k].0 as int].kind),
                0 <= i <= n,
                col_stats@.len() == surviving_entries(v0.col_stats@.take(i as int), fields@).len(),
                forall|j: int|
                    #![trigger col_stats@[j]]
                    0 <= j < col_stats@.len() ==> {
                        let kept = surviving_entries(v0.col_stats@.take(i as int), fields@)[j];
                        col_stats@[j].0 == kept.0 && matches_migrated(
                            col_stats@[j].1,
                            kept.1,
                            fields@[kept.0 as int].kind,
                        )
                    },
                forall|j: int|
                    #![trigger col_stats@[j].0]
                    0 <= j < col_stats@.len() ==> exists|k: int|
                        0 <= k < i && col_stats@[j].0 == #[trigger] v0.col_stats@[k].0,
                keys_sorted(col_stats@),
            decreases n - i,
        {
            let entry_key: u32 = v0.col_stats[i].0;
            let idx: usize = entry_key as usize;
            let dt = fields[idx];
            let ghost prefix = v0.col_stats@.take(i as int);
            proof {
                assert(v0.col_stats@.take(i + 1) =~= prefix.push(v0.col_stats@[i as int]));
                lemma_surviving_push(prefix, fields@, v0.col_stats@[i as int]);
            }
            match ColumnStatistics::from_v0(&v0.col_stats[i].1, &dt) {
                Some(s) => {
                    proof {
                        assert(forall|j: int|
                            0 <= j < col_stats@.len() ==> #[trigger] col_stats@[j].0 < entry_key);
                    }
                    col_stats.push((entry_key, s));
                },
                None => {},
            }
            i += 1;
        }
        proof {
            assert(v0.col_stats@.take(n as int) =~= v0.col_stats@);
        }
        Statistics {
            row_count: v0.row_count,
            block_count: v0.block_count,
            perfect_block_count: v0.perfect_block_count,
            uncompressed_byte_size: v0.uncompressed_byte_size,
            compressed_byte_size: v0.compressed_byte_size,
            index_size: v0.index_size,
            col_stats,
            cluster_stats: None,
        }
    }
}

/// Converts a tuple of typed scalars into index encodings, element-wise.
fn index_all(values: &Vec<Scalar>) -> (r: Vec<IndexScalar>)
    requires
        forall|i: int| 0 <= i < values@.len() ==> values@[i].is_indexable(),
    ensures
        r@.len() == values@.len(),
        forall|i: int| 0 <= i < values@.len() ==> index_eq(r@[i], values@[i].to_index_spec()),
{
    let mut out: Vec<IndexScalar> = Vec::new();
    let mut i: usize = 0;
    while i < values.len()
        invariant
            forall|k: int| 0 <= k < values@.len() ==> values@[k].is_indexable(),
            0 <= i <= values@.len(),
            out@.len() == i,
            forall|k: int| 0 <= k < i ==> index_eq(out@[k], values@[k].to_index_spec()),
        decreases values@.len() - i,
    {
        let v = match &values[i] {
            Scalar::Number(x) => IndexScalar::Number(*x),
            Scalar::Date(x) => IndexScalar::Date(*x),
            Scalar::Timestamp(x) => IndexScalar::Timestamp(*x),
            Scalar::String(b) => IndexScalar::String(crate::legacy::clone_bytes(b)),
            Scalar::Decimal { value, scale } => IndexScalar::Decimal {
                value: *value,
                scale: *scale,
            },
            _ => IndexScalar::Number(0),
        };
        out.push(v);
        i += 1;
    }
    out
}

/// Reads a tuple of index encodings back as typed scalars, element-wise.
fn scalar_all(values: &Vec<IndexScalar>) -> (r: Vec<Scalar>)
    ensures
        r@.len() == values@.len(),
        forall|i: int| 0 <= i < values@.len() ==> r@[i].is_indexable() && index_eq(
            r@[i].to_index_spec(),
            values@[i],
        ),
{
    let mut out: Vec<Scalar> = Vec::new();
    let mut i: usize = 0;
    while i < values.len()
        invariant
            0 <= i <= values@.len(),
            out@.len() == i,
            forall|k: int| 0 <= k < i ==> out@[k].is_indexable() && index_eq(
                out@[k].to_index_spec(),
                values@[k],
            ),
        decreases values@.len() - i,
    {
        out.push(copy_index(&values[i]).into_scalar());
        i += 1;
    }
    out
}

/// Retypes a tuple of untyped bounds, element-wise.
fn retype_all(values: &Vec<crate::legacy::LegacyScalar>, data_type: &DataType) -> (r: Vec<
    IndexScalar,
>)
    requires
        forall|i: int| 0 <= i < values@.len() ==> fits(values@[i], data_type.kind),
    ensures
        r@.len() == values@.len(),
        forall|i: int| 0 <= i < values@.len() ==> index_eq(r@[i], retyped(values@[i], data_type.kind)),
{
    let mut out: Vec<IndexScalar> = Vec::new();
    let mut i: usize = 0;
    while i < values.len()
        invariant
            forall|k: int| 0 <= k < values@.len() ==> fits(values@[k], data_type.kind),
            0 <= i <= values@.len(),
            out@.len() == i,
            forall|k: int| 0 <= k < i ==> index_eq(out@[k], retyped(values@[k], data_type.kind)),
        decreases values@.len() - i,
    {
        out.push(from_scalar(&values[i], data_type));
        i += 1;
    }
    out
}

/// The mathematical value of a column statistics record.
pub struct ColumnStatisticsV {
    pub min: crate::scalar::IndexScalarV,
    pub max: crate::scalar::IndexScalarV,
    pub null_count: u64,
    pub in_memory_size: u64,
    pub distinct_of_values: Option<u64>,
}

impl View for ColumnStatistics {
    type V = ColumnStatisticsV;

    open spec fn view(&self) -> ColumnStatisticsV {
        ColumnStatisticsV {
            min: self.min@,
            max: self.max@,
            null_count: self.null_count,
            in_memory_size: self.in_memory_size,
            distinct_of_values: self.distinct_of_values,
        }
    }
}

/// The mathematical value of a tuple of index scalars.
pub open spec fn view_bounds(s: Seq<IndexScalar>) -> Seq<crate::scalar::IndexScalarV> {
    s.map_values(|x: IndexScalar| x@)
}

/// The mathematical value of a cluster statistics record.
pub struct ClusterStatisticsV {
    pub cluster_key_id: u32,
    pub min: Seq<crate::scalar::IndexScalarV>,
    pub max: Seq<crate::scalar::IndexScalarV>,
    pub level: i32,
    pub pages: Option<Seq<crate::scalar::IndexScalarV>>,
}

impl View for ClusterStatistics {
    type V = ClusterStatisticsV;

    open spec fn view(&self) -> ClusterStatisticsV {
        ClusterStatisticsV {
            cluster_key_id: self.cluster_key_id,
            min: view_bounds(self.min@),
            max: view_bounds(self.max@),
            level: self.level,
            pages: match self.pages {
                Some(p) => Some(view_bounds(p@)),
                None => None,
            },
        }
    }
}

/// The mathematical value of the per-column statistics mapping.
pub open spec fn view_col_stats(s: Seq<(u32, ColumnStatistics)>) -> Seq<(u32, ColumnStatisticsV)> {
    s.map_values(|e: (u32, ColumnStatistics)| (e.0, e.1@))
}

/// The mathematical value of a table statistics aggregate.
pub struct StatisticsV {
    pub row_count: u64,
    pub block_count: u64,
    pub perfect_block_count: u64,
    pub uncompressed_byte_size: u64,
    pub compressed_byte_size: u64,
    pub index_size: u64,
    pub col_stats: Seq<(u32, ColumnStatisticsV)>,
    pub cluster_stats: Option<ClusterStatisticsV>,
}

impl View for Statistics {
    type V = StatisticsV;

    open spec fn view(&self) -> StatisticsV {
        StatisticsV {
            row_count: self.row_count,
            block_count: self.block_count,
            perfect_block_count: self.perfect_block_count,
            uncompressed_byte_size: self.uncompressed_byte_size,
            compressed_byte_size: self.compressed_byte_size,
            index_size: self.index_size,
            col_stats: view_col_stats(self.col_stats@),
            cluster_stats: match self.cluster_stats {
                Some(c) => Some(c@),
                None => None,
            },
        }
    }
}

} // verus!
