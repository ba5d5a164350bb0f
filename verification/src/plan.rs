//! The relational plan algebra: a closed set of operator kinds, the
//! per-kind parameters, and the logical/physical capability dispatch.

use vstd::prelude::*;

use crate::histogram::Histogram;
use crate::scalar::DataType;
use crate::scalar::Scalar;

verus! {

/// The stable kind tag of a plan operator, used for plan matching.
#[derive(Clone, Copy, PartialEq, Eq, Structural, Debug)]
pub enum RelOp {
    Scan,
    Filter,
    Join,
    Aggregate,
    Sort,
    Union,
    Exchange,
}

/// A typed output column of an operator.
#[derive(Clone, Copy, PartialEq, Eq, Structural, Debug)]
pub struct ColumnDesc {
    pub column: u32,
    pub data_type: DataType,
}

/// A per-column estimate carried by a relational property: distinct-value
/// count when known, and null count.
#[derive(Clone, Copy, PartialEq, Eq, Structural, Debug)]
pub struct ColumnEstimate {
    pub column: u32,
    pub ndv: Option<u64>,
    pub null_count: u64,
}

/// A range predicate: the column's value is at or below the bound.
#[derive(Clone, PartialEq, Debug)]
pub struct Predicate {
    pub column: u32,
    pub upper_bound: Scalar,
}

/// One sort key: a column and a direction.
#[derive(Clone, Copy, PartialEq, Eq, Structural, Debug)]
pub struct SortKey {
    pub column: u32,
    pub ascending: bool,
}

/// A table scan: base row count, output columns, per-column estimates,
/// an optional pushed-down predicate and an optional histogram on the
/// predicate column.
#[derive(Clone, PartialEq, Debug)]
pub struct ScanPlan {
    pub table_rows: u64,
    pub columns: Vec<ColumnDesc>,
    pub column_estimates: Vec<ColumnEstimate>,
    pub predicate: Option<Predicate>,
    pub histogram: Option<Histogram>,
}

/// A filter above its single child, with an optional histogram on the
/// predicate column for selectivity estimation.
#[derive(Clone, PartialEq, Debug)]
pub struct FilterPlan {
    pub predicate: Predicate,
    pub histogram: Option<Histogram>,
}

/// The physical strategy of a join once the optimizer has chosen one.
#[derive(Clone, Copy, PartialEq, Eq, Structural, Debug)]
pub enum JoinStrategy {
    Hash,
    Broadcast,
    Merge,
}

/// An equi-join of two children on one key column per side. A join is
/// logical until the optimizer substitutes a physical strategy.
#[derive(Clone, Copy, PartialEq, Eq, Structural, Debug)]
pub struct JoinPlan {
    pub left_key: u32,
    pub right_key: u32,
    pub strategy: Option<JoinStrategy>,
}

/// A grouped aggregation above its single child.
#[derive(Clone, PartialEq, Eq, Debug)]
pub struct AggregatePlan {
    pub group_columns: Vec<u32>,
}

/// A sort above its single child.
#[derive(Clone, PartialEq, Eq, Debug)]
pub struct SortPlan {
    pub keys: Vec<SortKey>,
}

/// A plan-preserving set union of two children, valid both before and
/// after optimization.
#[derive(Clone, Copy, PartialEq, Eq, Structural, Debug)]
pub struct UnionPlan {}

/// How an exchange stage redistributes rows.
#[derive(Clone, PartialEq, Eq, Debug)]
pub enum ExchangeKind {
    HashRepartition(Vec<u32>),
    Broadcast,
    Merge,
}

/// A data redistribution operator, inserted during physical planning.
#[derive(Clone, PartialEq, Eq, Debug)]
pub struct ExchangePlan {
    pub kind: ExchangeKind,
}

/// A plan operator: one variant per kind in the closed set.
#[derive(Clone, PartialEq, Debug)]
pub enum PlanOperator {
    Scan(ScanPlan),
    Filter(FilterPlan),
    Join(JoinPlan),
    Aggregate(AggregatePlan),
    Sort(SortPlan),
    Union(UnionPlan),
    Exchange(ExchangePlan),
}

impl PlanOperator {
    /// The stable kind tag of this operator.
    pub open spec fn rel_op(self) -> RelOp {
        match self {
            PlanOperator::Scan(_) => RelOp::Scan,
            PlanOperator::Filter(_) => RelOp::Filter,
            PlanOperator::Join(_) => RelOp::Join,
            PlanOperator::Aggregate(_) => RelOp::Aggregate,
            PlanOperator::Sort(_) => RelOp::Sort,
            PlanOperator::Union(_) => RelOp::Union,
            PlanOperator::Exchange(_) => RelOp::Exchange,
        }
    }

    /// Whether the operator has the logical capability: it can derive
    /// relational properties from its children's. Exchanges exist only
    /// physically.
    pub open spec fn is_logical_spec(self) -> bool {
        !(self is Exchange)
    }

    /// Whether the operator has the physical capability: a join gains it
    /// only once the optimizer has substituted a strategy.
    pub open spec fn is_physical_spec(self) -> bool {
        match self {
            PlanOperator::Join(j) => j.strategy is Some,
            _ => true,
        }
    }

    pub fn plan_type(&self) -> (r: RelOp)
        ensures
            r == self.rel_op(),
    {
        match self {
            PlanOperator::Scan(_) => RelOp::Scan,
            PlanOperator::Filter(_) => RelOp::Filter,
            PlanOperator::Join(_) => RelOp::Join,
            PlanOperator::Aggregate(_) => RelOp::Aggregate,
            PlanOperator::Sort(_) => RelOp::Sort,
            PlanOperator::Union(_) => RelOp::Union,
            PlanOperator::Exchange(_) => RelOp::Exchange,
        }
    }

    pub fn is_logical(&self) -> (r: bool)
        ensures
            r == self.is_logical_spec(),
    {
        match self {
            PlanOperator::Exchange(_) => false,
            _ => true,
        }
    }

    pub fn is_physical(&self) -> (r: bool)
        ensures
            r == self.is_physical_spec(),
    {
        match self {
            PlanOperator::Join(j) => j.strategy.is_some(),
            _ => true,
        }
    }

    /// Downcast to the logical capability: the same node, present exactly
    /// when the node is logical.
    pub fn as_logical(&self) -> (r: Option<&PlanOperator>)
        ensures
            r is Some <==> self.is_logical_spec(),
            r matches Some(p) ==> p == self,
    {
        if self.is_logical() {
            Some(self)
        } else {
            None
        }
    }

    /// Downcast to the physical capability: the same node, present exactly
    /// when the node is physical.
    pub fn as_physical(&self) -> (r: Option<&PlanOperator>)
        ensures
            r is Some <==> self.is_physical_spec(),
            r matches Some(p) ==> p == self,
    {
        if self.is_physical() {
            Some(self)
        } else {
            None
        }
    }
}

/// A plan expression: an operator and its exclusively owned children.
#[derive(Debug)]
pub struct SExpr {
    pub op: PlanOperator,
    pub children: Vec<SExpr>,
}

} // verus!
