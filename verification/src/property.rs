//! The property-derivation engine: relational properties (schema,
//! cardinality, per-column estimates, used columns) and physical properties
//! (distribution, ordering), each a pure function of a node's own
//! parameters and its children's already-derived properties.

use vstd::prelude::*;

use crate::histogram::sum_counts;
use crate::histogram::Histogram;
use crate::histogram::HistogramBucket;
use crate::plan::ColumnDesc;
use crate::plan::ColumnEstimate;
use crate::plan::ExchangeKind;
use crate::plan::JoinStrategy;
use crate::plan::PlanOperator;
use crate::plan::Predicate;
use crate::plan::RelOp;
use crate::plan::ScanPlan;
use crate::plan::SortKey;
use crate::plan::UnionPlan;
use crate::scalar::comparable_scalars;
use crate::scalar::index_le_spec;
use crate::scalar::scalar_le;
use crate::scalar::Scalar;
use crate::PlanError;

verus! {

/// Derived, read-only description of a node's logical output.
#[derive(Clone, PartialEq, Debug)]
pub struct RelationalProperty {
    pub output_columns: Vec<ColumnDesc>,
    pub cardinality: u64,
    pub column_estimates: Vec<ColumnEstimate>,
    pub used_columns: Vec<u32>,
}

/// How a node's output is distributed across workers.
#[derive(Clone, PartialEq, Eq, Debug)]
pub enum Distribution {
    Any,
    Serial,
    Broadcast,
    Hash(Vec<u32>),
}

/// Derived description of a node's execution-time data layout.
#[derive(Clone, PartialEq, Debug)]
pub struct PhysicalProperty {
    pub distribution: Distribution,
    pub ordering: Vec<SortKey>,
}

/// Structural equality of two distributions (hash key lists element-wise).
pub open spec fn dist_eq(a: Distribution, b: Distribution) -> bool {
    match (a, b) {
        (Distribution::Any, Distribution::Any) => true,
        (Distribution::Serial, Distribution::Serial) => true,
        (Distribution::Broadcast, Distribution::Broadcast) => true,
        (Distribution::Hash(x), Distribution::Hash(y)) => x@ == y@,
        _ => false,
    }
}

/// Structural equality of two physical properties.
pub open spec fn phys_eq(a: PhysicalProperty, b: PhysicalProperty) -> bool {
    dist_eq(a.distribution, b.distribution) && a.ordering@ == b.ordering@
}

/// Copies a vector of plain values.
pub fn copy_vec<T: Copy>(v: &Vec<T>) -> (r: Vec<T>)
    ensures
        r@ == v@,
{
    let mut out: Vec<T> = Vec::new();
    let mut i: usize = 0;
    while i < v.len()
        invariant
            0 <= i <= v@.len(),
            out@ =~= v@.take(i as int),
        decreases v@.len() - i,
    {
        out.push(v[i]);
        i += 1;
    }
    proof {
        assert(out@ =~= v@);
    }
    out
}

/// Concatenates two vectors of plain values.
pub fn concat_vec<T: Copy>(a: &Vec<T>, b: &Vec<T>) -> (r: Vec<T>)
    ensures
        r@ == a@ + b@,
{
    let mut out = copy_vec(a);
    let mut i: usize = 0;
    while i < b.len()
        invariant
            0 <= i <= b@.len(),
            out@ =~= a@ + b@.take(i as int),
        decreases b@.len() - i,
    {
        out.push(b[i]);
        i += 1;
    }
    proof {
        assert(out@ =~= a@ + b@);
    }
    out
}

/// The largest value a cardinality estimate can carry; larger estimates
/// saturate here rather than overflow.
pub open spec fn clamp_card(x: int) -> int {
    if x > u64::MAX {
        u64::MAX as int
    } else {
        x
    }
}

/// Sum of the counts of the buckets wholly at or below the bound: the
/// histogram mass a "value at most the bound" predicate covers.
pub open spec fn covered(s: Seq<HistogramBucket>, bound: Scalar) -> int
    decreases s.len(),
{
    if s.len() == 0 {
        0
    } else {
        covered(s.drop_last(), bound) + (if comparable_scalars(s.last().upper_bound, bound)
            && index_le_spec(s.last().upper_bound.to_index_spec(), bound.to_index_spec()) {
            s.last().count
        } else {
            0
        })
    }
}

/// The covered mass is between zero and the whole histogram's mass.
pub proof fn lemma_covered_bounds(s: Seq<HistogramBucket>, bound: Scalar)
    ensures
        0 <= covered(s, bound) <= sum_counts(s),
    decreases s.len(),
{
    if s.len() > 0 {
        lemma_covered_bounds(s.drop_last(), bound);
    }
}

/// A prefix's covered mass never exceeds the whole sequence's.
proof fn lemma_covered_take(s: Seq<HistogramBucket>, bound: Scalar, i: int)
    requires
        0 <= i <= s.len(),
    ensures
        0 <= covered(s.take(i), bound) <= covered(s, bound),
    decreases s.len() - i,
{
    if i == s.len() {
        assert(s.take(i) =~= s);
        lemma_covered_bounds(s, bound);
    } else {
        lemma_covered_take(s, bound, i + 1);
        assert(s.take(i + 1).drop_last() =~= s.take(i));
        assert(s.take(i + 1).last() == s[i]);
        lemma_covered_bounds(s.take(i), bound);
    }
}

/// The histogram mass at or below the bound.
pub fn covered_count(h: &Histogram, bound: &Scalar) -> (r: u64)
    requires
        h.wf(),
    ensures
        r == covered(h.buckets@, *bound),
{
    let n: usize = h.buckets.len();
    let mut acc: u64 = 0;
    let mut i: usize = 0;
    proof {
        assert(h.buckets@.take(0) =~= Seq::<HistogramBucket>::empty());
    }
    while i < n
        invariant
            h.wf(),
            n == h.buckets@.len(),
            0 <= i <= n,
            acc == covered(h.buckets@.take(i as int), *bound),
        decreases n - i,
    {
        proof {
            lemma_covered_take(h.buckets@, *bound, i + 1);
            lemma_covered_bounds(h.buckets@, *bound);
            assert(h.buckets@.take(i + 1).drop_last() =~= h.buckets@.take(i as int));
            assert(h.buckets@.take(i + 1).last() == h.buckets@[i as int]);
        }
        match scalar_le(&h.buckets[i].upper_bound, bound) {
            Some(true) => {
                acc = acc + h.buckets[i].count;
            },
            _ => {},
        }
        i += 1;
    }
    proof {
        assert(h.buckets@.take(n as int) =~= h.buckets@);
    }
    acc
}

/// The default selectivity denominator used when no histogram is
/// available: a predicate is assumed to keep one row in this many.
pub const DEFAULT_SELECTIVITY_DEN: u64 = 5;

/// Cardinality after a "value at most the bound" predicate: the covered
/// share of the histogram mass when one is available, else the fixed
/// default fraction.
pub open spec fn filtered_card(card: u64, pred: Predicate, hist: Option<Histogram>) -> int {
    match hist {
        Some(h) => {
            if sum_counts(h.buckets@) > 0 {
                card * covered(h.buckets@, pred.upper_bound) / sum_counts(h.buckets@)
            } else {
                card as int / DEFAULT_SELECTIVITY_DEN as int
            }
        },
        None => card as int / DEFAULT_SELECTIVITY_DEN as int,
    }
}

/// Applies a predicate's estimated selectivity to a cardinality.
pub fn apply_selectivity(card: u64, pred: &Predicate, hist: &Option<Histogram>) -> (r: u64)
    requires
        hist matches Some(h) ==> h.wf(),
    ensures
        r == filtered_card(card, *pred, *hist),
        r <= card,
{
    match hist {
        Some(h) => {
            let total = h.num_values();
            if total > 0 {
                let cov = covered_count(h, &pred.upper_bound);
                proof {
                    lemma_covered_bounds(h.buckets@, pred.upper_bound);
                    vstd::arithmetic::mul::lemma_mul_inequality(
                        cov as int,
                        total as int,
                        card as int,
                    );
                    vstd::arithmetic::div_mod::lemma_div_is_ordered(
                        card as int * cov as int,
                        card as int * total as int,
                        total as int,
                    );
                    vstd::arithmetic::div_mod::lemma_div_by_multiple(card as int, total as int);
                    vstd::arithmetic::mul::lemma_mul_is_commutative(cov as int, card as int);
                    vstd::arithmetic::mul::lemma_mul_is_commutative(total as int, card as int);
                    assert((card as int) * (cov as int) <= (u64::MAX as int) * (u64::MAX as int))
                        by (nonlinear_arith)
                        requires
                            0 <= card as int <= u64::MAX as int,
                            0 <= cov as int <= u64::MAX as int,
                    ;
                }
                (((card as u128) * (cov as u128)) / (total as u128)) as u64
            } else {
                card / DEFAULT_SELECTIVITY_DEN
            }
        },
        None => card / DEFAULT_SELECTIVITY_DEN,
    }
}

/// The distinct-value estimate a property carries for a column: the first
/// matching estimate, floored at one; one — the conservative choice — when
/// the column has none recorded.
pub open spec fn ndv_of(est: Seq<ColumnEstimate>, c: u32) -> int
    decreases est.len(),
{
    if est.len() == 0 {
        1
    } else if est[0].column == c {
        match est[0].ndv {
            Some(v) => if v >= 1 {
                v as int
            } else {
                1
            },
            None => 1,
        }
    } else {
        ndv_of(est.skip(1), c)
    }
}

/// The recorded distinct-value estimates are at least one and fit a word.
pub proof fn lemma_ndv_of_bounds(est: Seq<ColumnEstimate>, c: u32)
    ensures
        1 <= ndv_of(est, c) <= u64::MAX,
    decreases est.len(),
{
    if est.len() > 0 && est[0].column != c {
        lemma_ndv_of_bounds(est.skip(1), c);
    }
}

/// Looks up a column's distinct-value estimate.
pub fn lookup_ndv(est: &Vec<ColumnEstimate>, c: u32) -> (r: u64)
    ensures
        r == ndv_of(est@, c),
        r >= 1,
{
    let mut i: usize = 0;
    proof {
        assert(est@.skip(0) =~= est@);
    }
    loop
        invariant
            0 <= i <= est@.len(),
            ndv_of(est@, c) == ndv_of(est@.skip(i as int), c),
        decreases est@.len() - i,
    {
        if i == est.len() {
            proof {
                lemma_ndv_of_bounds(est@, c);
            }
            return 1;
        }
        proof {
            assert(est@.skip(i as int)[0] == est@[i as int]);
        }
        if est[i].column == c {
            match est[i].ndv {
                Some(v) => {
                    if v >= 1 {
                        return v;
                    } else {
                        return 1;
                    }
                },
                None => {
                    return 1;
                },
            }
        }
        proof {
            assert(est@.skip(i as int).skip(1) =~= est@.skip(i + 1));
        }
        i += 1;
    }
}

/// The join cardinality estimate: both sides' product shared across the
/// larger key-side distinct count, floored at one row and saturating at
/// the word limit.
pub open spec fn join_card(lc: u64, rc: u64, lndv: int, rndv: int) -> int
    recommends
        lndv >= 1,
        rndv >= 1,
{
    let m = if lndv >= rndv {
        lndv
    } else {
        rndv
    };
    let raw = lc * rc / m;
    if raw < 1 {
        1
    } else {
        clamp_card(raw)
    }
}

/// Scan cardinality: the table row count adjusted by the pushed-down
/// predicate's selectivity when one is present.
pub open spec fn scan_card(s: ScanPlan) -> int {
    match s.predicate {
        Some(p) => filtered_card(s.table_rows, p, s.histogram),
        None => s.table_rows as int,
    }
}

/// Union cardinality: the children's sum, saturating.
pub open spec fn union_card(lc: u64, rc: u64) -> int {
    clamp_card(lc + rc)
}

/// Product of the grouping columns' distinct-value estimates, saturating
/// at every step; one for an empty grouping.
pub open spec fn ndv_product(groups: Seq<u32>, est: Seq<ColumnEstimate>) -> int
    decreases groups.len(),
{
    if groups.len() == 0 {
        1
    } else {
        clamp_card(ndv_product(groups.drop_last(), est) * ndv_of(est, groups.last()))
    }
}

/// The grouping product stays within one and the word limit.
pub proof fn lemma_ndv_product_bounds(groups: Seq<u32>, est: Seq<ColumnEstimate>)
    ensures
        1 <= ndv_product(groups, est) <= u64::MAX,
    decreases groups.len(),
{
    if groups.len() > 0 {
        lemma_ndv_product_bounds(groups.drop_last(), est);
        lemma_ndv_of_bounds(est, groups.last());
        let a = ndv_product(groups.drop_last(), est);
        let b = ndv_of(est, groups.last());
        assert(a * b >= 1) by (nonlinear_arith)
            requires
                a >= 1,
                b >= 1,
        ;
    }
}

/// Aggregate cardinality: the input cannot shrink below the number of
/// groups the estimates allow, nor grow past the input.
pub open spec fn agg_card(input: u64, groups: Seq<u32>, est: Seq<ColumnEstimate>) -> int {
    if input <= ndv_product(groups, est) {
        input as int
    } else {
        ndv_product(groups, est)
    }
}

/// The join cardinality estimate is never negative and never exceeds the
/// word limit: every derived cardinality is a finite row count.
pub proof fn lemma_join_card_bounds(lc: u64, rc: u64, lndv: int, rndv: int)
    requires
        lndv >= 1,
        rndv >= 1,
    ensures
        1 <= join_card(lc, rc, lndv, rndv) <= u64::MAX,
{
    let m = if lndv >= rndv {
        lndv
    } else {
        rndv
    };
    vstd::arithmetic::div_mod::lemma_div_pos_is_pos(lc as int * rc as int, m);
    assert(lc as int * rc as int >= 0) by (nonlinear_arith)
        requires
            lc as int >= 0,
            rc as int >= 0,
    ;
}

/// Holding one side fixed, the join cardinality estimate never decreases
/// as the other side's cardinality grows.
pub proof fn lemma_join_card_monotone_left(lc1: u64, lc2: u64, rc: u64, lndv: int, rndv: int)
    requires
        lc1 <= lc2,
        lndv >= 1,
        rndv >= 1,
    ensures
        join_card(lc1, rc, lndv, rndv) <= join_card(lc2, rc, lndv, rndv),
{
    let m = if lndv >= rndv {
        lndv
    } else {
        rndv
    };
    vstd::arithmetic::mul::lemma_mul_inequality(lc1 as int, lc2 as int, rc as int);
    vstd::arithmetic::div_mod::lemma_div_is_ordered(lc1 as int * rc as int, lc2 as int * rc as int, m);
}

/// The same, in the other side.
pub proof fn lemma_join_card_monotone_right(lc: u64, rc1: u64, rc2: u64, lndv: int, rndv: int)
    requires
        rc1 <= rc2,
        lndv >= 1,
        rndv >= 1,
    ensures
        join_card(lc, rc1, lndv, rndv) <= join_card(lc, rc2, lndv, rndv),
{
    let m = if lndv >= rndv {
        lndv
    } else {
        rndv
    };
    vstd::arithmetic::mul::lemma_mul_inequality(rc1 as int, rc2 as int, lc as int);
    vstd::arithmetic::mul::lemma_mul_is_commutative(rc1 as int, lc as int);
    vstd::arithmetic::mul::lemma_mul_is_commutative(rc2 as int, lc as int);
    vstd::arithmetic::div_mod::lemma_div_is_ordered(lc as int * rc1 as int, lc as int * rc2 as int, m);
}

/// The join cardinality estimate, executable.
pub fn join_card_exec(lc: u64, rc: u64, lndv: u64, rndv: u64) -> (r: u64)
    requires
        lndv >= 1,
        rndv >= 1,
    ensures
        r == join_card(lc, rc, lndv as int, rndv as int),
{
    let m: u64 = if lndv >= rndv {
        lndv
    } else {
        rndv
    };
    proof {
        assert((lc as int) * (rc as int) <= (u64::MAX as int) * (u64::MAX as int))
            by (nonlinear_arith)
            requires
                0 <= lc as int <= u64::MAX as int,
                0 <= rc as int <= u64::MAX as int,
        ;
        vstd::arithmetic::div_mod::lemma_div_pos_is_pos(lc as int * rc as int, m as int);
        assert(lc as int * rc as int >= 0) by (nonlinear_arith)
            requires
                lc as int >= 0,
                rc as int >= 0,
        ;
    }
    let raw: u128 = ((lc as u128) * (rc as u128)) / (m as u128);
    if raw < 1 {
        1
    } else if raw > (u64::MAX as u128) {
        u64::MAX
    } else {
        raw as u64
    }
}

/// The grouping product, executable, saturating.
pub fn ndv_product_exec(groups: &Vec<u32>, est: &Vec<ColumnEstimate>) -> (r: u64)
    ensures
        r == ndv_product(groups@, est@),
        r >= 1,
{
    let mut acc: u64 = 1;
    let mut i: usize = 0;
    proof {
        assert(groups@.take(0) =~= Seq::<u32>::empty());
    }
    while i < groups.len()
        invariant
            0 <= i <= groups@.len(),
            acc == ndv_product(groups@.take(i as int), est@),
            acc >= 1,
        decreases groups@.len() - i,
    {
        proof {
            assert(groups@.take(i + 1).drop_last() =~= groups@.take(i as int));
            assert(groups@.take(i + 1).last() == groups@[i as int]);
        }
        let nv = lookup_ndv(est, groups[i]);
        proof {
            assert((acc as int) * (nv as int) <= (u64::MAX as int) * (u64::MAX as int)
                && (acc as int) * (nv as int) >= 1)
                by (nonlinear_arith)
                requires
                    1 <= acc as int <= u64::MAX as int,
                    1 <= nv as int <= u64::MAX as int,
            ;
        }
        let p: u128 = (acc as u128) * (nv as u128);
        if p > (u64::MAX as u128) {
            acc = u64::MAX;
        } else {
            acc = p as u64;
        }
        i += 1;
    }
    proof {
        assert(groups@.take(groups@.len() as int) =~= groups@);
    }
    acc
}

/// The column identifiers of a schema, in order.
pub open spec fn column_ids(cols: Seq<ColumnDesc>) -> Seq<u32>
    decreases cols.len(),
{
    if cols.len() == 0 {
        Seq::empty()
    } else {
        column_ids(cols.drop_last()).push(cols.last().column)
    }
}

/// The column identifiers of a sort-key list, in order.
pub open spec fn key_columns(keys: Seq<SortKey>) -> Seq<u32>
    decreases keys.len(),
{
    if keys.len() == 0 {
        Seq::empty()
    } else {
        key_columns(keys.drop_last()).push(keys.last().column)
    }
}

/// The descriptor a schema holds for a column: the first match, or — for a
/// column the child does not expose — a plain non-nullable numeric
/// placeholder.
pub open spec fn desc_of(cols: Seq<ColumnDesc>, c: u32) -> ColumnDesc
    decreases cols.len(),
{
    if cols.len() == 0 {
        ColumnDesc {
            column: c,
            data_type: crate::scalar::DataType {
                nullable: false,
                kind: crate::scalar::TypeKind::Number,
            },
        }
    } else if cols[0].column == c {
        cols[0]
    } else {
        desc_of(cols.skip(1), c)
    }
}

/// The output schema of a grouped aggregation: one descriptor per grouping
/// column, in grouping order.
pub open spec fn group_schema(groups: Seq<u32>, cols: Seq<ColumnDesc>) -> Seq<ColumnDesc>
    decreases groups.len(),
{
    if groups.len() == 0 {
        Seq::empty()
    } else {
        group_schema(groups.drop_last(), cols).push(desc_of(cols, groups.last()))
    }
}

/// The column identifiers of a schema, executable.
pub fn column_ids_exec(cols: &Vec<ColumnDesc>) -> (r: Vec<u32>)
    ensures
        r@ == column_ids(cols@),
{
    let mut out: Vec<u32> = Vec::new();
    let mut i: usize = 0;
    proof {
        assert(cols@.take(0) =~= Seq::<ColumnDesc>::empty());
    }
    while i < cols.len()
        invariant
            0 <= i <= cols@.len(),
            out@ == column_ids(cols@.take(i as int)),
        decreases cols@.len() - i,
    {
        proof {
            assert(cols@.take(i + 1).drop_last() =~= cols@.take(i as int));
            assert(cols@.take(i + 1).last() == cols@[i as int]);
        }
        out.push(cols[i].column);
        i += 1;
    }
    proof {
        assert(cols@.take(cols@.len() as int) =~= cols@);
    }
    out
}

/// The column identifiers of a sort-key list, executable.
pub fn key_columns_exec(keys: &Vec<SortKey>) -> (r: Vec<u32>)
    ensures
        r@ == key_columns(keys@),
{
    let mut out: Vec<u32> = Vec::new();
    let mut i: usize = 0;
    proof {
        assert(keys@.take(0) =~= Seq::<SortKey>::empty());
    }
    while i < keys.len()
        invariant
            0 <= i <= keys@.len(),
            out@ == key_columns(keys@.take(i as int)),
        decreases keys@.len() - i,
    {
        proof {
            assert(keys@.take(i + 1).drop_last() =~= keys@.take(i as int));
            assert(keys@.take(i + 1).last() == keys@[i as int]);
        }
        out.push(keys[i].column);
        i += 1;
    }
    proof {
        assert(keys@.take(keys@.len() as int) =~= keys@);
    }
    out
}

/// Looks a column's descriptor up in a schema.
pub fn desc_lookup(cols: &Vec<ColumnDesc>, c: u32) -> (r: ColumnDesc)
    ensures
        r == desc_of(cols@, c),
{
    let mut i: usize = 0;
    proof {
        assert(cols@.skip(0) =~= cols@);
    }
    loop
        invariant
            0 <= i <= cols@.len(),
            desc_of(cols@, c) == desc_of(cols@.skip(i as int), c),
        decreases cols@.len() - i,
    {
        if i == cols.len() {
            return ColumnDesc {
                column: c,
                data_type: crate::scalar::DataType {
                    nullable: false,
                    kind: crate::scalar::TypeKind::Number,
                },
            };
        }
        proof {
            assert(cols@.skip(i as int)[0] == cols@[i as int]);
        }
        if cols[i].column == c {
            return cols[i];
        }
        proof {
            assert(cols@.skip(i as int).skip(1) =~= cols@.skip(i + 1));
        }
        i += 1;
    }
}

/// The grouped-aggregation output schema, executable.
pub fn group_schema_exec(groups: &Vec<u32>, cols: &Vec<ColumnDesc>) -> (r: Vec<ColumnDesc>)
    ensures
        r@ == group_schema(groups@, cols@),
{
    let mut out: Vec<ColumnDesc> = Vec::new();
    let mut i: usize = 0;
    proof {
        assert(groups@.take(0) =~= Seq::<u32>::empty());
    }
    while i < groups.len()
        invariant
            0 <= i <= groups@.len(),
            out@ == group_schema(groups@.take(i as int), cols@),
        decreases groups@.len() - i,
    {
        proof {
            assert(groups@.take(i + 1).drop_last() =~= groups@.take(i as int));
            assert(groups@.take(i + 1).last() == groups@[i as int]);
        }
        out.push(desc_lookup(cols, groups[i]));
        i += 1;
    }
    proof {
        assert(groups@.take(groups@.len() as int) =~= groups@);
    }
    out
}

/// How many children each operator kind takes.
pub open spec fn op_arity(op: PlanOperator) -> int {
    match op {
        PlanOperator::Scan(_) => 0,
        PlanOperator::Filter(_) => 1,
        PlanOperator::Join(_) => 2,
        PlanOperator::Aggregate(_) => 1,
        PlanOperator::Sort(_) => 1,
        PlanOperator::Union(_) => 2,
        PlanOperator::Exchange(_) => 1,
    }
}

/// Any histogram an operator carries is well-formed.
pub open spec fn op_stats_wf(op: PlanOperator) -> bool {
    match op {
        PlanOperator::Scan(s) => s.histogram matches Some(h) ==> h.wf(),
        PlanOperator::Filter(f) => f.histogram matches Some(h) ==> h.wf(),
        _ => true,
    }
}

/// What the relational property derived for a logical operator says, as a
/// function of the operator's parameters and its children's properties.
pub open spec fn derive_rel_matches(
    op: PlanOperator,
    children: Seq<RelationalProperty>,
    p: RelationalProperty,
) -> bool {
    match op {
        PlanOperator::Scan(s) => {
            &&& p.cardinality == scan_card(s)
            &&& p.output_columns@ == s.columns@
            &&& p.column_estimates@ == s.column_estimates@
            &&& p.used_columns@ == column_ids(s.columns@)
        },
        PlanOperator::Filter(f) => {
            &&& p.cardinality == filtered_card(children[0].cardinality, f.predicate, f.histogram)
            &&& p.output_columns@ == children[0].output_columns@
            &&& p.column_estimates@ == children[0].column_estimates@
            &&& p.used_columns@ == children[0].used_columns@ + seq![f.predicate.column]
        },
        PlanOperator::Join(j) => {
            &&& p.cardinality == join_card(
                children[0].cardinality,
                children[1].cardinality,
                ndv_of(children[0].column_estimates@, j.left_key),
                ndv_of(children[1].column_estimates@, j.right_key),
            )
            &&& p.output_columns@ == children[0].output_columns@ + children[1].output_columns@
            &&& p.column_estimates@ == children[0].column_estimates@
                + children[1].column_estimates@
            &&& p.used_columns@ == children[0].used_columns@ + children[1].used_columns@ + seq![
                j.left_key,
                j.right_key,
            ]
        },
        PlanOperator::Aggregate(a) => {
            &&& p.cardinality == agg_card(
                children[0].cardinality,
                a.group_columns@,
                children[0].column_estimates@,
            )
            &&& p.output_columns@ == group_schema(a.group_columns@, children[0].output_columns@)
            &&& p.column_estimates@ == children[0].column_estimates@
            &&& p.used_columns@ == children[0].used_columns@ + a.group_columns@
        },
        PlanOperator::Sort(s) => {
            &&& p.cardinality == children[0].cardinality
            &&& p.output_columns@ == children[0].output_columns@
            &&& p.column_estimates@ == children[0].column_estimates@
            &&& p.used_columns@ == children[0].used_columns@ + key_columns(s.keys@)
        },
        PlanOperator::Union(_) => {
            &&& p.cardinality == union_card(children[0].cardinality, children[1].cardinality)
            &&& p.output_columns@ == children[0].output_columns@
            &&& p.column_estimates@ == children[0].column_estimates@
            &&& p.used_columns@ == children[0].used_columns@ + children[1].used_columns@
        },
        PlanOperator::Exchange(_) => false,
    }
}

/// Derives a node's relational property from its own parameters and its
/// children's already-derived properties: a pure computation. A node with
/// no logical capability is a planning fault, never a wrong default;
/// absent statistics degrade the estimate, never the derivation.
pub fn derive_relational_prop(op: &PlanOperator, children: &Vec<RelationalProperty>) -> (r:
    Result<RelationalProperty, PlanError>)
    requires
        children@.len() == op_arity(*op),
        op_stats_wf(*op),
    ensures
        op.is_logical_spec() ==> (r matches Ok(p) && derive_rel_matches(*op, children@, p)),
        !op.is_logical_spec() ==> r == Err::<RelationalProperty, PlanError>(
            PlanError::Unsupported,
        ),
{
    match op {
        PlanOperator::Scan(s) => {
            let cardinality = match &s.predicate {
                Some(p) => apply_selectivity(s.table_rows, p, &s.histogram),
                None => s.table_rows,
            };
            Ok(RelationalProperty {
                output_columns: copy_vec(&s.columns),
                cardinality,
                column_estimates: copy_vec(&s.column_estimates),
                used_columns: column_ids_exec(&s.columns),
            })
        },
        PlanOperator::Filter(f) => {
            let child = &children[0];
            let cardinality = apply_selectivity(child.cardinality, &f.predicate, &f.histogram);
            let mut used = copy_vec(&child.used_columns);
            used.push(f.predicate.column);
            proof {
                assert(used@ =~= child.used_columns@ + seq![f.predicate.column]);
            }
            Ok(RelationalProperty {
                output_columns: copy_vec(&child.output_columns),
                cardinality,
                column_estimates: copy_vec(&child.column_estimates),
                used_columns: used,
            })
        },
        PlanOperator::Join(j) => {
            let left = &children[0];
            let right = &children[1];
            let lndv = lookup_ndv(&left.column_estimates, j.left_key);
            let rndv = lookup_ndv(&right.column_estimates, j.right_key);
            let cardinality = join_card_exec(left.cardinality, right.cardinality, lndv, rndv);
            let mut used = concat_vec(&left.used_columns, &right.used_columns);
            used.push(j.left_key);
            used.push(j.right_key);
            proof {
                assert(used@ =~= left.used_columns@ + right.used_columns@ + seq![
                    j.left_key,
                    j.right_key,
                ]);
            }
            Ok(RelationalProperty {
                output_columns: concat_vec(&left.output_columns, &right.output_columns),
                cardinality,
                column_estimates: concat_vec(&left.column_estimates, &right.column_estimates),
                used_columns: used,
            })
        },
        PlanOperator::Aggregate(a) => {
            let child = &children[0];
            let groups = ndv_product_exec(&a.group_columns, &child.column_estimates);
            let cardinality = if child.cardinality <= groups {
                child.cardinality
            } else {
                groups
            };
            Ok(RelationalProperty {
                output_columns: group_schema_exec(&a.group_columns, &child.output_columns),
                cardinality,
                column_estimates: copy_vec(&child.column_estimates),
                used_columns: concat_vec(&child.used_columns, &a.group_columns),
            })
        },
        PlanOperator::Sort(s) => {
            let child = &children[0];
            let keys = key_columns_exec(&s.keys);
            Ok(RelationalProperty {
                output_columns: copy_vec(&child.output_columns),
                cardinality: child.cardinality,
                column_estimates: copy_vec(&child.column_estimates),
                used_columns: concat_vec(&child.used_columns, &keys),
            })
        },
        PlanOperator::Union(_) => {
            let left = &children[0];
            let right = &children[1];
            let sum: u128 = (left.cardinality as u128) + (right.cardinality as u128);
            let cardinality: u64 = if sum > (u64::MAX as u128) {
                u64::MAX
            } else {
                sum as u64
            };
            Ok(RelationalProperty {
                output_columns: copy_vec(&left.output_columns),
                cardinality,
                column_estimates: copy_vec(&left.column_estimates),
                used_columns: concat_vec(&left.used_columns, &right.used_columns),
            })
        },
        PlanOperator::Exchange(_) => Err(PlanError::Unsupported),
    }
}

/// Whether an operator has defined physical behaviour: a union is a
/// placeholder with none yet, and a join gains it only with a strategy.
pub open spec fn phys_supported(op: PlanOperator) -> bool {
    match op {
        PlanOperator::Union(_) => false,
        PlanOperator::Join(j) => j.strategy is Some,
        _ => true,
    }
}

/// What the physical property derived for an operator says, as a function
/// of the operator's parameters and its children's physical properties.
pub open spec fn derive_phys_matches(
    op: PlanOperator,
    children: Seq<PhysicalProperty>,
    p: PhysicalProperty,
) -> bool {
    match op {
        PlanOperator::Scan(_) => dist_eq(p.distribution, Distribution::Any) && p.ordering@
            == Seq::<SortKey>::empty(),
        PlanOperator::Filter(_) => phys_eq(p, children[0]),
        PlanOperator::Sort(s) => dist_eq(p.distribution, children[0].distribution) && p.ordering@
            == s.keys@,
        PlanOperator::Aggregate(_) => dist_eq(p.distribution, children[0].distribution)
            && p.ordering@ == Seq::<SortKey>::empty(),
        PlanOperator::Join(j) => match j.strategy {
            Some(JoinStrategy::Merge) => dist_eq(p.distribution, children[1].distribution)
                && p.ordering@ == seq![SortKey { column: j.left_key, ascending: true }],
            Some(_) => dist_eq(p.distribution, children[1].distribution) && p.ordering@
                == Seq::<SortKey>::empty(),
            None => false,
        },
        PlanOperator::Exchange(e) => (match e.kind {
            ExchangeKind::HashRepartition(cols) => p.distribution matches Distribution::Hash(h)
                && h@ == cols@,
            ExchangeKind::Broadcast => dist_eq(p.distribution, Distribution::Broadcast),
            ExchangeKind::Merge => dist_eq(p.distribution, Distribution::Serial),
        }) && p.ordering@ == Seq::<SortKey>::empty(),
        PlanOperator::Union(_) => false,
    }
}

/// Copies a physical property.
pub fn copy_phys(p: &PhysicalProperty) -> (r: PhysicalProperty)
    ensures
        phys_eq(r, *p),
{
    let distribution = match &p.distribution {
        Distribution::Any => Distribution::Any,
        Distribution::Serial => Distribution::Serial,
        Distribution::Broadcast => Distribution::Broadcast,
        Distribution::Hash(cols) => Distribution::Hash(copy_vec(cols)),
    };
    PhysicalProperty { distribution, ordering: copy_vec(&p.ordering) }
}

/// Derives a node's physical property from its children's. An operator
/// variant with no defined physical behaviour yet — a union placeholder,
/// or a join the optimizer has given no strategy — signals a clear
/// "unsupported" fault rather than a silent wrong default.
pub fn derive_physical_prop(op: &PlanOperator, children: &Vec<PhysicalProperty>) -> (r: Result<
    PhysicalProperty,
    PlanError,
>)
    requires
        children@.len() == op_arity(*op),
    ensures
        phys_supported(*op) ==> (r matches Ok(p) && derive_phys_matches(*op, children@, p)),
        !phys_supported(*op) ==> r == Err::<PhysicalProperty, PlanError>(PlanError::Unsupported),
{
    match op {
        PlanOperator::Scan(_) => Ok(
            PhysicalProperty { distribution: Distribution::Any, ordering: Vec::new() },
        ),
        PlanOperator::Filter(_) => Ok(copy_phys(&children[0])),
        PlanOperator::Sort(s) => Ok(
            PhysicalProperty {
                distribution: copy_phys(&children[0]).distribution,
                ordering: copy_vec(&s.keys),
            },
        ),
        PlanOperator::Aggregate(_) => Ok(
            PhysicalProperty {
                distribution: copy_phys(&children[0]).distribution,
                ordering: Vec::new(),
            },
        ),
        PlanOperator::Join(j) => match j.strategy {
            Some(JoinStrategy::Merge) => {
                let mut ordering: Vec<SortKey> = Vec::new();
                ordering.push(SortKey { column: j.left_key, ascending: true });
                proof {
                    assert(ordering@ =~= seq![SortKey { column: j.left_key, ascending: true }]);
                }
                Ok(
                    PhysicalProperty {
                        distribution: copy_phys(&children[1]).distribution,
                        ordering,
                    },
                )
            },
            Some(_) => Ok(
                PhysicalProperty {
                    distribution: copy_phys(&children[1]).distribution,
                    ordering: Vec::new(),
                },
            ),
            None => Err(PlanError::Unsupported),
        },
        PlanOperator::Exchange(e) => {
            let distribution = match &e.kind {
                ExchangeKind::HashRepartition(cols) => Distribution::Hash(copy_vec(cols)),
                ExchangeKind::Broadcast => Distribution::Broadcast,
                ExchangeKind::Merge => Distribution::Serial,
            };
            Ok(PhysicalProperty { distribution, ordering: Vec::new() })
        },
        PlanOperator::Union(_) => Err(PlanError::Unsupported),
    }
}

/// The shared, read-only handle a node derives its properties through: the
/// enclosing context resolves the children's already-derived properties so
/// the node never re-walks the tree.
pub struct RelExpr {
    pub children_properties: Vec<RelationalProperty>,
}

impl UnionPlan {
    /// The stable kind tag.
    pub fn plan_type(&self) -> (r: RelOp)
        ensures
            r == RelOp::Union,
    {
        RelOp::Union
    }

    /// A union is directly executable.
    pub fn is_physical(&self) -> (r: bool)
        ensures
            r,
    {
        true
    }

    /// A union derives relational properties.
    pub fn is_logical(&self) -> (r: bool)
        ensures
            r,
    {
        true
    }

    /// The logical capability view: always the node itself.
    pub fn as_logical(&self) -> (r: Option<&UnionPlan>)
        ensures
            r matches Some(p) && p == self,
    {
        Some(self)
    }

    /// The physical capability view: always the node itself.
    pub fn as_physical(&self) -> (r: Option<&UnionPlan>)
        ensures
            r matches Some(p) && p == self,
    {
        Some(self)
    }

    /// A union's relational property: the children's summed cardinality
    /// and the left child's schema and estimates.
    pub fn derive_relational_prop(&self, rel_expr: &RelExpr) -> (r: Result<
        RelationalProperty,
        PlanError,
    >)
        requires
            rel_expr.children_properties@.len() == 2,
        ensures
            r matches Ok(p) && derive_rel_matches(
                PlanOperator::Union(UnionPlan {  }),
                rel_expr.children_properties@,
                p,
            ),
    {
        derive_relational_prop(
            &PlanOperator::Union(UnionPlan {  }),
            &rel_expr.children_properties,
        )
    }

    /// A union's physical behaviour is not defined yet: asking for it is
    /// the development-time "unsupported" fault, never a wrong default.
    pub fn compute_physical_prop(&self, expression: &crate::plan::SExpr) -> (r: Result<
        PhysicalProperty,
        PlanError,
    >)
        ensures
            r == Err::<PhysicalProperty, PlanError>(PlanError::Unsupported),
    {
        let _ = expression;
        Err(PlanError::Unsupported)
    }
}

} // verus!
