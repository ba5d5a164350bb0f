//! The physical plan builder and pipeline scheduler: walks an optimized
//! plan bottom-up, emits one executable stage per node, inserts an
//! exchange wherever a node's required input distribution is not already
//! provided by its child, and surfaces a planning fault where a required
//! ordering cannot be reconciled. A post-build hook may append one
//! terminal result-cache write stage, gated by a runtime setting.

use vstd::prelude::*;

use crate::plan::JoinStrategy;
use crate::plan::ExchangeKind;
use crate::plan::PlanOperator;
use crate::plan::SExpr;
use crate::plan::SortKey;
use crate::property::Distribution;
use crate::property::copy_vec;
use crate::PlanError;

verus! {

/// The cache key of a result-materialization stage: tenant identifier,
/// normalized query text, and the partition-pruning signature.
#[derive(Clone, PartialEq, Eq, Debug)]
pub struct CacheKey {
    pub tenant: String,
    pub query_text: String,
    pub partition_sha: String,
}

/// The mathematical value of a cache key.
pub struct CacheKeyV {
    pub tenant: Seq<char>,
    pub query_text: Seq<char>,
    pub partition_sha: Seq<char>,
}

impl View for CacheKey {
    type V = CacheKeyV;

    open spec fn view(&self) -> CacheKeyV {
        CacheKeyV {
            tenant: self.tenant@,
            query_text: self.query_text@,
            partition_sha: self.partition_sha@,
        }
    }
}

/// Derives the result-cache key from the query's identifying parts.
pub fn gen_result_cache_meta_key(tenant: String, query_text: String, partition_sha: String) -> (r:
    CacheKey)
    ensures
        r@.tenant == tenant@,
        r@.query_text == query_text@,
        r@.partition_sha == partition_sha@,
{
    CacheKey { tenant, query_text, partition_sha }
}

/// One executable processing stage of a pipeline.
#[derive(Clone, PartialEq, Debug)]
pub enum Stage {
    /// Reads a table's rows.
    Source { table_rows: u64 },
    /// Applies a predicate row by row.
    FilterRows,
    /// Hash-repartitions rows across workers by the given key columns.
    Repartition { keys: Vec<u32> },
    /// Replicates every row to every worker.
    BroadcastExchange,
    /// Merges all partitions into a single stream.
    MergeExchange,
    /// Sorts rows by the given keys.
    SortRows { keys: Vec<SortKey> },
    /// Probes a join's build side.
    JoinProbe { strategy: JoinStrategy, left_key: u32, right_key: u32 },
    /// Groups and accumulates rows.
    AggregateRows { group_columns: Vec<u32> },
    /// Observes rows passing to the consumer and writes them to the
    /// result cache; always the terminal stage when present.
    CacheWrite { key: CacheKey, ttl_secs: u64, max_bytes: u64 },
}

/// The mathematical value of a stage.
pub enum StageV {
    Source { table_rows: u64 },
    FilterRows,
    Repartition { keys: Seq<u32> },
    BroadcastExchange,
    MergeExchange,
    SortRows { keys: Seq<SortKey> },
    JoinProbe { strategy: JoinStrategy, left_key: u32, right_key: u32 },
    AggregateRows { group_columns: Seq<u32> },
    CacheWrite { key: CacheKeyV, ttl_secs: u64, max_bytes: u64 },
}

impl View for Stage {
    type V = StageV;

    open spec fn view(&self) -> StageV {
        match self {
            Stage::Source { table_rows } => StageV::Source { table_rows: *table_rows },
            Stage::FilterRows => StageV::FilterRows,
            Stage::Repartition { keys } => StageV::Repartition { keys: keys@ },
            Stage::BroadcastExchange => StageV::BroadcastExchange,
            Stage::MergeExchange => StageV::MergeExchange,
            Stage::SortRows { keys } => StageV::SortRows { keys: keys@ },
            Stage::JoinProbe { strategy, left_key, right_key } => StageV::JoinProbe {
                strategy: *strategy,
                left_key: *left_key,
                right_key: *right_key,
            },
            Stage::AggregateRows { group_columns } => StageV::AggregateRows {
                group_columns: group_columns@,
            },
            Stage::CacheWrite { key, ttl_secs, max_bytes } => StageV::CacheWrite {
                key: key@,
                ttl_secs: *ttl_secs,
                max_bytes: *max_bytes,
            },
        }
    }
}

/// The mathematical value of a stage list.
pub open spec fn view_stages(s: Seq<Stage>) -> Seq<StageV> {
    s.map_values(|x: Stage| x@)
}

/// One chain of stages executed in order.
#[derive(Clone, PartialEq, Debug)]
pub struct Pipeline {
    pub stages: Vec<Stage>,
}

impl View for Pipeline {
    type V = Seq<StageV>;

    open spec fn view(&self) -> Seq<StageV> {
        view_stages(self.stages@)
    }
}

/// The mathematical value of a list of auxiliary pipelines.
pub open spec fn view_pipelines(s: Seq<Pipeline>) -> Seq<Seq<StageV>> {
    s.map_values(|p: Pipeline| p@)
}

/// What the builder hands the executor: the main pipeline and the
/// auxiliary pipelines that feed build sides ahead of it.
#[derive(Clone, PartialEq, Debug)]
pub struct PipelineBuildResult {
    pub main_pipeline: Pipeline,
    pub sources: Vec<Pipeline>,
}

/// The distribution a built subtree delivers, as a mathematical value.
pub enum DistributionV {
    Any,
    Serial,
    Broadcast,
    Hash(Seq<u32>),
}

impl View for Distribution {
    type V = DistributionV;

    open spec fn view(&self) -> DistributionV {
        match self {
            Distribution::Any => DistributionV::Any,
            Distribution::Serial => DistributionV::Serial,
            Distribution::Broadcast => DistributionV::Broadcast,
            Distribution::Hash(cols) => DistributionV::Hash(cols@),
        }
    }
}

/// What a built subtree delivers: its stages so far, its auxiliary
/// pipelines, the distribution of its output and the ordering of its
/// output.
#[verifier::ext_equal]
pub struct BuiltV {
    pub main: Seq<StageV>,
    pub aux: Seq<Seq<StageV>>,
    pub distribution: DistributionV,
    pub ordering: Seq<SortKey>,
}

/// Every node of the plan has the child count its kind calls for.
pub open spec fn plan_arity_ok(e: SExpr) -> bool
    decreases e,
{
    e.children@.len() == crate::property::op_arity(e.op) && forall|i: int|
        0 <= i < e.children@.len() ==> plan_arity_ok(#[trigger] e.children@[i])
}

/// What building one subtree yields, bottom-up. Exchanges are inserted
/// exactly where a node's required input distribution is not already
/// provided; a merge join whose children do not already deliver the
/// required orderings is a planning fault, since no exchange can create
/// an ordering.
pub open spec fn build_node_spec(e: SExpr) -> Result<BuiltV, PlanError>
    decreases e,
{
    match e.op {
        PlanOperator::Scan(s) => Ok(
            BuiltV {
                main: seq![StageV::Source { table_rows: s.table_rows }],
                aux: Seq::empty(),
                distribution: DistributionV::Any,
                ordering: Seq::empty(),
            },
        ),
        PlanOperator::Filter(_) => if e.children@.len() != 1 {
            Err(PlanError::Unsupported)
        } else {
            match build_node_spec(e.children@[0]) {
            Ok(c) => Ok(
                BuiltV {
                    main: c.main.push(StageV::FilterRows),
                    aux: c.aux,
                    distribution: c.distribution,
                    ordering: c.ordering,
                },
            ),
            Err(er) => Err(er),
            }
        },
        PlanOperator::Sort(s) => if e.children@.len() != 1 {
            Err(PlanError::Unsupported)
        } else {
            match build_node_spec(e.children@[0]) {
            Ok(c) => Ok(
                BuiltV {
                    main: c.main.push(StageV::SortRows { keys: s.keys@ }),
                    aux: c.aux,
                    distribution: c.distribution,
                    ordering: s.keys@,
                },
            ),
            Err(er) => Err(er),
            }
        },
        PlanOperator::Aggregate(a) => if e.children@.len() != 1 {
            Err(PlanError::Unsupported)
        } else {
            match build_node_spec(e.children@[0]) {
            Ok(c) => {
                let pre = if c.distribution == DistributionV::Hash(a.group_columns@) {
                    c.main
                } else {
                    c.main.push(StageV::Repartition { keys: a.group_columns@ })
                };
                Ok(
                    BuiltV {
                        main: pre.push(StageV::AggregateRows { group_columns: a.group_columns@ }),
                        aux: c.aux,
                        distribution: DistributionV::Hash(a.group_columns@),
                        ordering: Seq::empty(),
                    },
                )
            },
            Err(er) => Err(er),
            }
        },
        PlanOperator::Exchange(x) => if e.children@.len() != 1 {
            Err(PlanError::Unsupported)
        } else {
            match build_node_spec(e.children@[0]) {
            Ok(c) => {
                let (stage, dist) = match x.kind {
                    ExchangeKind::HashRepartition(cols) => (
                        StageV::Repartition { keys: cols@ },
                        DistributionV::Hash(cols@),
                    ),
                    ExchangeKind::Broadcast => (StageV::BroadcastExchange, DistributionV::Broadcast),
                    ExchangeKind::Merge => (StageV::MergeExchange, DistributionV::Serial),
                };
                Ok(
                    BuiltV {
                        main: c.main.push(stage),
                        aux: c.aux,
                        distribution: dist,
                        ordering: Seq::empty(),
                    },
                )
            },
            Err(er) => Err(er),
            }
        },
        PlanOperator::Join(j) => if e.children@.len() != 2 {
            Err(PlanError::Unsupported)
        } else {
            match j.strategy {
            None => Err(PlanError::Unsupported),
            Some(st) => match (build_node_spec(e.children@[0]), build_node_spec(e.children@[1])) {
                (Err(er), _) => Err(er),
                (Ok(_), Err(er)) => Err(er),
                (Ok(l), Ok(r)) => join_combine_spec(j.left_key, j.right_key, st, l, r),
            },
            }
        },
        PlanOperator::Union(_) => Err(PlanError::Unsupported),
    }
}

/// How a join's two built sides combine under a strategy: the build side
/// becomes one more auxiliary pipeline, the probe side continues the main
/// chain, and exchanges reconcile the strategy's required distributions;
/// a merge join whose sides do not already arrive in key order is an
/// irreconcilable-ordering fault, since exchanges redistribute but never
/// sort.
pub open spec fn join_combine_spec(
    left_key: u32,
    right_key: u32,
    st: JoinStrategy,
    l: BuiltV,
    r: BuiltV,
) -> Result<BuiltV, PlanError> {
    match st {
                    JoinStrategy::Merge => {
                        if l.ordering == seq![SortKey { column: left_key, ascending: true }]
                            && r.ordering == seq![
                            SortKey { column: right_key, ascending: true },
                        ] {
                            Ok(
                                BuiltV {
                                    main: r.main.push(
                                        StageV::JoinProbe {
                                            strategy: JoinStrategy::Merge,
                                            left_key: left_key,
                                            right_key: right_key,
                                        },
                                    ),
                                    aux: l.aux + r.aux + seq![l.main],
                                    distribution: r.distribution,
                                    ordering: seq![
                                        SortKey { column: left_key, ascending: true },
                                    ],
                                },
                            )
                        } else {
                            Err(PlanError::IrreconcilableOrdering)
                        }
                    },
                    JoinStrategy::Hash => {
                        let lm = if l.distribution == DistributionV::Hash(seq![left_key]) {
                            l.main
                        } else {
                            l.main.push(StageV::Repartition { keys: seq![left_key] })
                        };
                        let rm = if r.distribution == DistributionV::Hash(seq![right_key]) {
                            r.main
                        } else {
                            r.main.push(StageV::Repartition { keys: seq![right_key] })
                        };
                        Ok(
                            BuiltV {
                                main: rm.push(
                                    StageV::JoinProbe {
                                        strategy: JoinStrategy::Hash,
                                        left_key: left_key,
                                        right_key: right_key,
                                    },
                                ),
                                aux: l.aux + r.aux + seq![lm],
                                distribution: DistributionV::Hash(seq![right_key]),
                                ordering: Seq::empty(),
                            },
                        )
                    },
                    JoinStrategy::Broadcast => {
                        let lm = if l.distribution == DistributionV::Broadcast {
                            l.main
                        } else {
                            l.main.push(StageV::BroadcastExchange)
                        };
                        Ok(
                            BuiltV {
                                main: r.main.push(
                                    StageV::JoinProbe {
                                        strategy: JoinStrategy::Broadcast,
                                        left_key: left_key,
                                        right_key: right_key,
                                    },
                                ),
                                aux: l.aux + r.aux + seq![lm],
                                distribution: r.distribution,
                                ordering: Seq::empty(),
                            },
                        )
                    },
    }
}

/// What the finished build yields: the subtree's stages with a terminal
/// merge-to-single exchange when the plan does not already deliver a
/// single stream.
pub open spec fn build_spec(e: SExpr) -> Result<(Seq<StageV>, Seq<Seq<StageV>>), PlanError> {
    match build_node_spec(e) {
        Ok(b) => {
            let main = if b.distribution == DistributionV::Serial {
                b.main
            } else {
                b.main.push(StageV::MergeExchange)
            };
            Ok((main, b.aux))
        },
        Err(er) => Err(er),
    }
}

/// Appending a stage appends its value.
proof fn lemma_view_stages_push(s: Seq<Stage>, x: Stage)
    ensures
        view_stages(s.push(x)) == view_stages(s).push(x@),
{
    assert(view_stages(s.push(x)) =~= view_stages(s).push(x@));
}

/// Appending a pipeline appends its value.
proof fn lemma_view_pipelines_push(s: Seq<Pipeline>, x: Pipeline)
    ensures
        view_pipelines(s.push(x)) == view_pipelines(s).push(x@),
{
    assert(view_pipelines(s.push(x)) =~= view_pipelines(s).push(x@));
}

/// Concatenating pipeline lists concatenates their values.
proof fn lemma_view_pipelines_concat(a: Seq<Pipeline>, b: Seq<Pipeline>)
    ensures
        view_pipelines(a + b) == view_pipelines(a) + view_pipelines(b),
{
    assert(view_pipelines(a + b) =~= view_pipelines(a) + view_pipelines(b));
}

/// Element-wise equality of two key-column lists.
fn keys_eq(a: &Vec<u32>, b: &Vec<u32>) -> (r: bool)
    ensures
        r == (a@ == b@),
{
    if a.len() != b.len() {
        assert(a@ != b@);
        return false;
    }
    let n: usize = a.len();
    let mut i: usize = 0;
    while i < n
        invariant
            n == a@.len() == b@.len(),
            0 <= i <= n,
            forall|j: int| 0 <= j < i ==> a@[j] == b@[j],
        decreases n - i,
    {
        if a[i] != b[i] {
            return false;
        }
        i += 1;
    }
    proof {
        assert(a@ =~= b@);
    }
    true
}

/// Whether a delivered distribution is already hash-partitioned on the
/// given keys.
fn dist_matches_hash(d: &Distribution, keys: &Vec<u32>) -> (r: bool)
    ensures
        r == (d@ == DistributionV::Hash(keys@)),
{
    match d {
        Distribution::Hash(cols) => keys_eq(cols, keys),
        _ => false,
    }
}

/// Whether a delivered distribution is already hash-partitioned on one key.
fn dist_is_single_hash(d: &Distribution, key: u32) -> (r: bool)
    ensures
        r == (d@ == DistributionV::Hash(seq![key])),
{
    match d {
        Distribution::Hash(cols) => {
            if cols.len() == 1 && cols[0] == key {
                proof {
                    assert(cols@ =~= seq![key]);
                }
                true
            } else {
                proof {
                    if cols@ == seq![key] {
                        assert(cols@.len() == 1 && cols@[0] == key);
                    }
                }
                false
            }
        },
        _ => false,
    }
}

/// Whether a delivered ordering is exactly one ascending key.
fn ordering_is_single(o: &Vec<SortKey>, key: u32) -> (r: bool)
    ensures
        r == (o@ == seq![SortKey { column: key, ascending: true }]),
{
    if o.len() == 1 {
        let k = o[0];
        if k.column == key && k.ascending {
            proof {
                assert(o@ =~= seq![SortKey { column: key, ascending: true }]);
            }
            true
        } else {
            proof {
                if o@ == seq![SortKey { column: key, ascending: true }] {
                    assert(o@[0] == SortKey { column: key, ascending: true });
                }
            }
            false
        }
    } else {
        false
    }
}

/// What building one subtree delivered, executably.
pub struct Built {
    pub main: Vec<Stage>,
    pub aux: Vec<Pipeline>,
    pub distribution: Distribution,
    pub ordering: Vec<SortKey>,
}

/// The specified value an executable build result carries.
pub open spec fn built_view(b: Built) -> BuiltV {
    BuiltV {
        main: view_stages(b.main@),
        aux: view_pipelines(b.aux@),
        distribution: b.distribution@,
        ordering: b.ordering@,
    }
}

/// How an executable build result corresponds to its specified value.
pub open spec fn built_matches(b: Built, v: BuiltV) -> bool {
    &&& view_stages(b.main@) == v.main
    &&& view_pipelines(b.aux@) == v.aux
    &&& b.distribution@ == v.distribution
    &&& b.ordering@ == v.ordering
}

/// Builds one subtree bottom-up.
fn build_node(e: &SExpr) -> (r: Result<Built, PlanError>)
    requires
        plan_arity_ok(*e),
    ensures
        build_node_spec(*e) matches Ok(v) ==> (r matches Ok(b) && built_matches(b, v)),
        build_node_spec(*e) matches Err(er) ==> r matches Err(e2) && e2 == er,
    decreases *e,
{
    match &e.op {
        PlanOperator::Scan(s) => {
            let mut main: Vec<Stage> = Vec::new();
            main.push(Stage::Source { table_rows: s.table_rows });
            proof {
                assert(view_stages(main@) =~= seq![StageV::Source { table_rows: s.table_rows }]);
                assert(view_pipelines(Seq::<Pipeline>::empty()) =~= Seq::<Seq<StageV>>::empty());
            }
            Ok(
                Built {
                    main,
                    aux: Vec::new(),
                    distribution: Distribution::Any,
                    ordering: Vec::new(),
                },
            )
        },
        PlanOperator::Filter(_) => {
            match build_node(&e.children[0]) {
                Err(er) => Err(er),
                Ok(mut c) => {
                    proof {
                        lemma_view_stages_push(c.main@, Stage::FilterRows);
                    }
                    c.main.push(Stage::FilterRows);
                    Ok(c)
                },
            }
        },
        PlanOperator::Sort(s) => {
            match build_node(&e.children[0]) {
                Err(er) => Err(er),
                Ok(mut c) => {
                    let stage = Stage::SortRows { keys: copy_vec(&s.keys) };
                    proof {
                        lemma_view_stages_push(c.main@, stage);
                    }
                    c.main.push(stage);
                    Ok(
                        Built {
                            main: c.main,
                            aux: c.aux,
                            distribution: c.distribution,
                            ordering: copy_vec(&s.keys),
                        },
                    )
                },
            }
        },
        PlanOperator::Aggregate(a) => {
            match build_node(&e.children[0]) {
                Err(er) => Err(er),
                Ok(mut c) => {
                    if !dist_matches_hash(&c.distribution, &a.group_columns) {
                        let stage = Stage::Repartition { keys: copy_vec(&a.group_columns) };
                        proof {
                            lemma_view_stages_push(c.main@, stage);
                        }
                        c.main.push(stage);
                    }
                    let stage = Stage::AggregateRows { group_columns: copy_vec(&a.group_columns) };
                    proof {
                        lemma_view_stages_push(c.main@, stage);
                    }
                    c.main.push(stage);
                    Ok(
                        Built {
                            main: c.main,
                            aux: c.aux,
                            distribution: Distribution::Hash(copy_vec(&a.group_columns)),
                            ordering: Vec::new(),
                        },
                    )
                },
            }
        },
        PlanOperator::Exchange(x) => {
            match build_node(&e.children[0]) {
                Err(er) => Err(er),
                Ok(mut c) => {
                    let (stage, dist) = match &x.kind {
                        ExchangeKind::HashRepartition(cols) => (
                            Stage::Repartition { keys: copy_vec(cols) },
                            Distribution::Hash(copy_vec(cols)),
                        ),
                        ExchangeKind::Broadcast => (
                            Stage::BroadcastExchange,
                            Distribution::Broadcast,
                        ),
                        ExchangeKind::Merge => (Stage::MergeExchange, Distribution::Serial),
                    };
                    proof {
                        lemma_view_stages_push(c.main@, stage);
                    }
                    c.main.push(stage);
                    Ok(
                        Built {
                            main: c.main,
                            aux: c.aux,
                            distribution: dist,
                            ordering: Vec::new(),
                        },
                    )
                },
            }
        },
        PlanOperator::Join(j) => {
            match j.strategy {
                None => Err(PlanError::Unsupported),
                Some(st) => {
                    let left = build_node(&e.children[0]);
                    match left {
                        Err(er) => Err(er),
                        Ok(l) => {
                            let right = build_node(&e.children[1]);
                            match right {
                                Err(er) => Err(er),
                                Ok(r) => build_join(j.left_key, j.right_key, st, l, r),
                            }
                        },
                    }
                },
            }
        },
        PlanOperator::Union(_) => Err(PlanError::Unsupported),
    }
}

/// Combines the two built join sides: the build side becomes an auxiliary
/// pipeline, the probe side continues the main chain, and exchanges
/// reconcile the strategy's required distributions. A merge join whose
/// sides do not already arrive in key order is an irreconcilable-ordering
/// fault: exchanges redistribute, they do not sort.
fn build_join(left_key: u32, right_key: u32, st: JoinStrategy, l: Built, r: Built) -> (res: Result<
    Built,
    PlanError,
>)
    ensures
        join_combine_spec(left_key, right_key, st, built_view(l), built_view(r)) matches Ok(v)
            ==> (res matches Ok(b) && built_matches(b, v)),
        join_combine_spec(left_key, right_key, st, built_view(l), built_view(r)) matches Err(er)
            ==> (res matches Err(e2) && e2 == er),
{
    let ghost lv = built_view(l);
    let ghost rv = built_view(r);
    let mut l = l;
    let mut r = r;
    match st {
        JoinStrategy::Merge => {
            if ordering_is_single(&l.ordering, left_key) && ordering_is_single(
                &r.ordering,
                right_key,
            ) {
                let stage = Stage::JoinProbe {
                    strategy: JoinStrategy::Merge,
                    left_key,
                    right_key,
                };
                proof {
                    lemma_view_stages_push(r.main@, stage);
                }
                r.main.push(stage);
                let mut aux = l.aux;
                let mut raux = r.aux;
                proof {
                    lemma_view_pipelines_concat(aux@, raux@);
                }
                aux.append(&mut raux);
                let lp = Pipeline { stages: l.main };
                proof {
                    lemma_view_pipelines_push(aux@, lp);
                }
                aux.push(lp);
                proof {
                    assert(view_pipelines(aux@) =~= lv.aux + rv.aux + seq![lv.main]);
                }
                let mut ordering: Vec<SortKey> = Vec::new();
                ordering.push(SortKey { column: left_key, ascending: true });
                proof {
                    assert(ordering@ =~= seq![SortKey { column: left_key, ascending: true }]);
                }
                Ok(
                    Built {
                        main: r.main,
                        aux,
                        distribution: r.distribution,
                        ordering,
                    },
                )
            } else {
                Err(PlanError::IrreconcilableOrdering)
            }
        },
        JoinStrategy::Hash => {
            if !dist_is_single_hash(&l.distribution, left_key) {
                let mut keys: Vec<u32> = Vec::new();
                keys.push(left_key);
                proof {
                    assert(keys@ =~= seq![left_key]);
                }
                let stage = Stage::Repartition { keys };
                proof {
                    lemma_view_stages_push(l.main@, stage);
                }
                l.main.push(stage);
            }
            if !dist_is_single_hash(&r.distribution, right_key) {
                let mut keys: Vec<u32> = Vec::new();
                keys.push(right_key);
                proof {
                    assert(keys@ =~= seq![right_key]);
                }
                let stage = Stage::Repartition { keys };
                proof {
                    lemma_view_stages_push(r.main@, stage);
                }
                r.main.push(stage);
            }
            let stage = Stage::JoinProbe { strategy: JoinStrategy::Hash, left_key, right_key };
            proof {
                lemma_view_stages_push(r.main@, stage);
            }
            r.main.push(stage);
            let ghost lm_final = view_stages(l.main@);
            let mut aux = l.aux;
            let mut raux = r.aux;
            proof {
                lemma_view_pipelines_concat(aux@, raux@);
            }
            aux.append(&mut raux);
            let lp = Pipeline { stages: l.main };
            proof {
                lemma_view_pipelines_push(aux@, lp);
            }
            aux.push(lp);
            proof {
                assert(view_pipelines(aux@) =~= lv.aux + rv.aux + seq![lm_final]);
            }
            let mut dist_keys: Vec<u32> = Vec::new();
            dist_keys.push(right_key);
            proof {
                assert(dist_keys@ =~= seq![right_key]);
            }
            Ok(
                Built {
                    main: r.main,
                    aux,
                    distribution: Distribution::Hash(dist_keys),
                    ordering: Vec::new(),
                },
            )
        },
        JoinStrategy::Broadcast => {
            let already = match &l.distribution {
                Distribution::Broadcast => true,
                _ => false,
            };
            if !already {
                proof {
                    lemma_view_stages_push(l.main@, Stage::BroadcastExchange);
                }
                l.main.push(Stage::BroadcastExchange);
            }
            let stage = Stage::JoinProbe {
                strategy: JoinStrategy::Broadcast,
                left_key,
                right_key,
            };
            proof {
                lemma_view_stages_push(r.main@, stage);
            }
            r.main.push(stage);
            let ghost lm_final = view_stages(l.main@);
            let mut aux = l.aux;
            let mut raux = r.aux;
            proof {
                lemma_view_pipelines_concat(aux@, raux@);
            }
            aux.append(&mut raux);
            let lp = Pipeline { stages: l.main };
            proof {
                lemma_view_pipelines_push(aux@, lp);
            }
            aux.push(lp);
            proof {
                assert(view_pipelines(aux@) =~= lv.aux + rv.aux + seq![lm_final]);
            }
            Ok(
                Built {
                    main: r.main,
                    aux,
                    distribution: r.distribution,
                    ordering: Vec::new(),
                },
            )
        },
    }
}

/// A merge join whose sides do not both arrive ordered by their join key
/// is reported as a planning fault, never silently built: no exchange can
/// create an ordering.
pub proof fn lemma_merge_join_ordering_fault(
    left_key: u32,
    right_key: u32,
    l: BuiltV,
    r: BuiltV,
)
    requires
        l.ordering != seq![SortKey { column: left_key, ascending: true }] || r.ordering != seq![
            SortKey { column: right_key, ascending: true },
        ],
    ensures
        join_combine_spec(left_key, right_key, JoinStrategy::Merge, l, r) == Err::<
            BuiltV,
            PlanError,
        >(PlanError::IrreconcilableOrdering),
{
}

/// The physical plan builder: one instance per query, run once before
/// execution on the optimized plan.
pub struct PhysicalPlanBuilder {}

impl PhysicalPlanBuilder {
    pub fn new() -> (r: Self) {
        PhysicalPlanBuilder {  }
    }

    /// Builds the executable pipeline for an optimized plan: the plan's
    /// stages bottom-up, exchanges inserted where required distributions
    /// are not met, a terminal merge to a single stream, and every join
    /// build side as an auxiliary pipeline. Faults are surfaced, never
    /// downgraded: an unreconcilable ordering or an operator without
    /// defined physical behaviour aborts the build.
    pub fn build(&self, s_expr: &SExpr) -> (r: Result<PipelineBuildResult, PlanError>)
        requires
            plan_arity_ok(*s_expr),
        ensures
            build_spec(*s_expr) matches Ok(parts) ==> (r matches Ok(out) && out.main_pipeline@
                == parts.0 && view_pipelines(out.sources@) == parts.1),
            build_spec(*s_expr) matches Err(er) ==> (r matches Err(e2) && e2 == er),
    {
        match build_node(s_expr) {
            Err(er) => Err(er),
            Ok(mut b) => {
                let serial = match &b.distribution {
                    Distribution::Serial => true,
                    _ => false,
                };
                if !serial {
                    proof {
                        lemma_view_stages_push(b.main@, Stage::MergeExchange);
                    }
                    b.main.push(Stage::MergeExchange);
                }
                Ok(
                    PipelineBuildResult {
                        main_pipeline: Pipeline { stages: b.main },
                        sources: b.aux,
                    },
                )
            },
        }
    }
}

/// The runtime settings that gate the result-cache insertion point.
#[derive(Clone, Copy, PartialEq, Eq, Structural, Debug)]
pub struct ResultCacheSettings {
    pub enable_query_result_cache: bool,
    pub max_result_cache_bytes: u64,
    pub result_cache_ttl_secs: u64,
}

/// The post-build hook: when the result cache is enabled, appends the one
/// terminal cache-write stage — after the pipeline is otherwise complete,
/// as the last stage before the consumer — and otherwise leaves the
/// pipeline untouched. The stage observes rows; it never alters them.
pub fn apply_result_cache(
    res: PipelineBuildResult,
    settings: &ResultCacheSettings,
    key: CacheKey,
) -> (r: PipelineBuildResult)
    ensures
        !settings.enable_query_result_cache ==> r.main_pipeline@ == res.main_pipeline@
            && view_pipelines(r.sources@) == view_pipelines(res.sources@),
        settings.enable_query_result_cache ==> r.main_pipeline@ == res.main_pipeline@ + seq![
            StageV::CacheWrite {
                key: key@,
                ttl_secs: settings.result_cache_ttl_secs,
                max_bytes: settings.max_result_cache_bytes,
            },
        ] && view_pipelines(r.sources@) == view_pipelines(res.sources@),
{
    if settings.enable_query_result_cache {
        let mut res = res;
        let stage = Stage::CacheWrite {
            key,
            ttl_secs: settings.result_cache_ttl_secs,
            max_bytes: settings.max_result_cache_bytes,
        };
        proof {
            lemma_view_stages_push(res.main_pipeline.stages@, stage);
            assert(view_stages(res.main_pipeline.stages@).push(stage@) =~= view_stages(
                res.main_pipeline.stages@,
            ) + seq![stage@]);
        }
        res.main_pipeline.stages.push(stage);
        res
    } else {
        res
    }
}

/// Interprets a select query: builds the pipeline for the optimized plan
/// and, when the result cache is enabled, appends the terminal cache-write
/// stage keyed by tenant, query text and partition signature.
pub fn execute_select(
    s_expr: &SExpr,
    settings: &ResultCacheSettings,
    tenant: String,
    query_text: String,
    partition_sha: String,
) -> (r: Result<PipelineBuildResult, PlanError>)
    requires
        plan_arity_ok(*s_expr),
    ensures
        build_spec(*s_expr) matches Err(er) ==> (r matches Err(e2) && e2 == er),
        build_spec(*s_expr) matches Ok(parts) ==> (r matches Ok(out) && {
            let cache_stage = StageV::CacheWrite {
                key: CacheKeyV {
                    tenant: tenant@,
                    query_text: query_text@,
                    partition_sha: partition_sha@,
                },
                ttl_secs: settings.result_cache_ttl_secs,
                max_bytes: settings.max_result_cache_bytes,
            };
            &&& view_pipelines(out.sources@) == parts.1
            &&& settings.enable_query_result_cache ==> out.main_pipeline@ == parts.0 + seq![
                cache_stage,
            ]
            &&& !settings.enable_query_result_cache ==> out.main_pipeline@ == parts.0
        }),
{
    let builder = PhysicalPlanBuilder::new();
    match builder.build(s_expr) {
        Err(er) => Err(er),
        Ok(res) => {
            let key = gen_result_cache_meta_key(tenant, query_text, partition_sha);
            Ok(apply_result_cache(res, settings, key))
        },
    }
}

} // verus!
