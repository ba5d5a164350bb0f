use query_core::builder::execute_select;
use query_core::builder::gen_result_cache_meta_key;
use query_core::builder::apply_result_cache;
use query_core::builder::PhysicalPlanBuilder;
use query_core::builder::ResultCacheSettings;
use query_core::builder::Stage;
use query_core::histogram::Histogram;
use query_core::histogram::HistogramBucket;
use query_core::plan::AggregatePlan;
use query_core::plan::ColumnDesc;
use query_core::plan::ColumnEstimate;
use query_core::plan::FilterPlan;
use query_core::plan::JoinPlan;
use query_core::plan::JoinStrategy;
use query_core::plan::PlanOperator;
use query_core::plan::Predicate;
use query_core::plan::RelOp;
use query_core::plan::ScanPlan;
use query_core::plan::SExpr;
use query_core::plan::SortKey;
use query_core::plan::SortPlan;
use query_core::plan::UnionPlan;
use query_core::property::derive_physical_prop;
use query_core::property::derive_relational_prop;
use query_core::property::PhysicalProperty;
use query_core::property::RelationalProperty;
use query_core::property::RelExpr;
use query_core::property::Distribution;
use query_core::scalar::DataType;
use query_core::scalar::Scalar;
use query_core::scalar::TypeKind;
use query_core::PlanError;

fn number_type() -> DataType {
    DataType { nullable: false, kind: TypeKind::Number }
}

fn scan(table_rows: u64, column: u32, ndv: Option<u64>) -> PlanOperator {
    PlanOperator::Scan(ScanPlan {
        table_rows,
        columns: vec![ColumnDesc { column, data_type: number_type() }],
        column_estimates: vec![ColumnEstimate { column, ndv, null_count: 0 }],
        predicate: None,
        histogram: None,
    })
}

fn leaf(table_rows: u64, column: u32, ndv: Option<u64>) -> SExpr {
    SExpr { op: scan(table_rows, column, ndv), children: Vec::new() }
}

fn prop_of(op: &PlanOperator, children: Vec<RelationalProperty>) -> RelationalProperty {
    derive_relational_prop(op, &children).unwrap()
}

#[test]
fn operator_capability_dispatch() {
    let union = PlanOperator::Union(UnionPlan {});
    assert_eq!(union.plan_type(), RelOp::Union);
    assert!(union.is_logical());
    assert!(union.is_physical());
    assert!(union.as_logical().is_some());
    assert!(union.as_physical().is_some());

    let logical_join = PlanOperator::Join(JoinPlan { left_key: 0, right_key: 1, strategy: None });
    assert!(logical_join.is_logical());
    assert!(!logical_join.is_physical());
    assert!(logical_join.as_physical().is_none());
}

#[test]
fn union_plan_methods_match_the_operator_contract() {
    let union = UnionPlan {};
    assert_eq!(union.plan_type(), RelOp::Union);
    assert!(union.is_logical());
    assert!(union.is_physical());
    assert!(union.as_logical().is_some());
    assert!(union.as_physical().is_some());

    let left = prop_of(&scan(10, 0, None), Vec::new());
    let right = prop_of(&scan(32, 1, None), Vec::new());
    let rel_expr = RelExpr { children_properties: vec![left, right] };
    let derived = union.derive_relational_prop(&rel_expr).unwrap();
    assert_eq!(derived.cardinality, 42);

    let expr = leaf(10, 0, None);
    assert_eq!(union.compute_physical_prop(&expr), Err(PlanError::Unsupported));
}

#[test]
fn scan_cardinality_is_table_rows_without_predicate() {
    let p = prop_of(&scan(1234, 0, None), Vec::new());
    assert_eq!(p.cardinality, 1234);
    assert_eq!(p.output_columns.len(), 1);
    assert_eq!(p.used_columns, vec![0]);
}

#[test]
fn filter_uses_default_selectivity_without_histogram() {
    let child = prop_of(&scan(1000, 0, None), Vec::new());
    let filter = PlanOperator::Filter(FilterPlan {
        predicate: Predicate { column: 0, upper_bound: Scalar::Number(50) },
        histogram: None,
    });
    let p = prop_of(&filter, vec![child]);
    assert_eq!(p.cardinality, 200);
}

#[test]
fn filter_uses_histogram_overlap_when_available() {
    let child = prop_of(&scan(1000, 0, None), Vec::new());
    let histogram = Histogram::new(vec![
        HistogramBucket::new(Scalar::Number(10), 30, 5),
        HistogramBucket::new(Scalar::Number(20), 50, 5),
        HistogramBucket::new(Scalar::Number(30), 20, 5),
    ]);
    let filter = PlanOperator::Filter(FilterPlan {
        predicate: Predicate { column: 0, upper_bound: Scalar::Number(20) },
        histogram: Some(histogram),
    });
    let p = prop_of(&filter, vec![child]);
    // 1000 * (30 + 50) / 100
    assert_eq!(p.cardinality, 800);
}

#[test]
fn join_cardinality_shares_the_larger_key_ndv_with_floor_one() {
    let left = prop_of(&scan(1000, 0, Some(20)), Vec::new());
    let right = prop_of(&scan(600, 1, Some(50)), Vec::new());
    let join = PlanOperator::Join(JoinPlan {
        left_key: 0,
        right_key: 1,
        strategy: Some(JoinStrategy::Hash),
    });
    let p = prop_of(&join, vec![left, right]);
    // 1000 * 600 / max(20, 50)
    assert_eq!(p.cardinality, 12_000);

    let left = prop_of(&scan(1, 0, Some(1_000_000)), Vec::new());
    let right = prop_of(&scan(1, 1, Some(1)), Vec::new());
    let p = prop_of(&join, vec![left, right]);
    assert_eq!(p.cardinality, 1);
}

#[test]
fn aggregate_cardinality_is_bounded_by_group_ndv_product_and_input() {
    let child = prop_of(&scan(1000, 0, Some(12)), Vec::new());
    let agg = PlanOperator::Aggregate(AggregatePlan { group_columns: vec![0] });
    let p = prop_of(&agg, vec![child]);
    assert_eq!(p.cardinality, 12);

    let child = prop_of(&scan(5, 0, Some(12)), Vec::new());
    let p = prop_of(&agg, vec![child]);
    assert_eq!(p.cardinality, 5);
}

#[test]
fn union_cardinality_is_the_sum_of_children() {
    let left = prop_of(&scan(30, 0, None), Vec::new());
    let right = prop_of(&scan(12, 0, None), Vec::new());
    let union = PlanOperator::Union(UnionPlan {});
    let p = prop_of(&union, vec![left, right]);
    assert_eq!(p.cardinality, 42);
}

#[test]
fn exp_type_rule_accepts_a_leading_numeric_argument() {
    let num = DataType { nullable: false, kind: TypeKind::Number };
    let flt = DataType { nullable: false, kind: TypeKind::Float };
    let boolean = DataType { nullable: false, kind: TypeKind::Boolean };

    let t = query_core::scalar::exp_return_type(&vec![num]).unwrap();
    assert_eq!(t.kind, TypeKind::Float);
    assert!(!t.nullable);
    // Floats are exp's ordinary input: its own result feeds back in.
    let t = query_core::scalar::exp_return_type(&vec![t]).unwrap();
    assert_eq!(t.kind, TypeKind::Float);
    // Only the first argument decides; the rest are ignored.
    let t = query_core::scalar::exp_return_type(&vec![flt, boolean]).unwrap();
    assert_eq!(t.kind, TypeKind::Float);

    assert!(query_core::scalar::exp_return_type(&Vec::new()).is_err());
    assert_eq!(
        query_core::scalar::exp_return_type(&vec![boolean]),
        Err(PlanError::Unsupported)
    );
}

#[test]
fn physical_property_of_union_is_an_unsupported_fault() {
    let children = vec![
        PhysicalProperty { distribution: Distribution::Any, ordering: Vec::new() },
        PhysicalProperty { distribution: Distribution::Any, ordering: Vec::new() },
    ];
    let union = PlanOperator::Union(UnionPlan {});
    assert_eq!(derive_physical_prop(&union, &children), Err(PlanError::Unsupported));
}

fn cache_off() -> ResultCacheSettings {
    ResultCacheSettings {
        enable_query_result_cache: false,
        max_result_cache_bytes: 0,
        result_cache_ttl_secs: 0,
    }
}

#[test]
fn hash_join_build_inserts_repartitions_and_an_aux_pipeline() {
    let plan = SExpr {
        op: PlanOperator::Join(JoinPlan {
            left_key: 0,
            right_key: 1,
            strategy: Some(JoinStrategy::Hash),
        }),
        children: vec![leaf(100, 0, None), leaf(200, 1, None)],
    };
    let builder = PhysicalPlanBuilder::new();
    let built = builder.build(&plan).unwrap();
    // Probe side: scan, repartition on its key, probe, terminal merge.
    let main = &built.main_pipeline.stages;
    assert_eq!(main.len(), 4);
    assert!(matches!(main[0], Stage::Source { table_rows: 200 }));
    assert!(matches!(main[1], Stage::Repartition { .. }));
    assert!(matches!(
        main[2],
        Stage::JoinProbe { strategy: JoinStrategy::Hash, left_key: 0, right_key: 1 }
    ));
    assert!(matches!(main[3], Stage::MergeExchange));
    // Build side: one auxiliary pipeline, scan then repartition.
    assert_eq!(built.sources.len(), 1);
    assert_eq!(built.sources[0].stages.len(), 2);
    assert!(matches!(built.sources[0].stages[0], Stage::Source { table_rows: 100 }));
    assert!(matches!(built.sources[0].stages[1], Stage::Repartition { .. }));
}

#[test]
fn merge_join_with_incompatible_child_orderings_is_a_planning_fault() {
    let sorted_on = |key: u32, rows: u64| SExpr {
        op: PlanOperator::Sort(SortPlan { keys: vec![SortKey { column: key, ascending: false }] }),
        children: vec![leaf(rows, key, None)],
    };
    let plan = SExpr {
        op: PlanOperator::Join(JoinPlan {
            left_key: 0,
            right_key: 1,
            strategy: Some(JoinStrategy::Merge),
        }),
        children: vec![sorted_on(0, 100), sorted_on(1, 200)],
    };
    let builder = PhysicalPlanBuilder::new();
    assert_eq!(builder.build(&plan), Err(PlanError::IrreconcilableOrdering));
}

#[test]
fn merge_join_with_matching_orderings_builds() {
    let sorted_on = |key: u32, rows: u64| SExpr {
        op: PlanOperator::Sort(SortPlan { keys: vec![SortKey { column: key, ascending: true }] }),
        children: vec![leaf(rows, key, None)],
    };
    let plan = SExpr {
        op: PlanOperator::Join(JoinPlan {
            left_key: 0,
            right_key: 1,
            strategy: Some(JoinStrategy::Merge),
        }),
        children: vec![sorted_on(0, 100), sorted_on(1, 200)],
    };
    let builder = PhysicalPlanBuilder::new();
    assert!(builder.build(&plan).is_ok());
}

#[test]
fn building_a_union_is_an_unsupported_fault() {
    let plan = SExpr {
        op: PlanOperator::Union(UnionPlan {}),
        children: vec![leaf(1, 0, None), leaf(2, 1, None)],
    };
    let builder = PhysicalPlanBuilder::new();
    assert_eq!(builder.build(&plan), Err(PlanError::Unsupported));
}

#[test]
fn result_cache_stage_is_appended_only_when_enabled() {
    let builder = PhysicalPlanBuilder::new();
    let built = builder.build(&leaf(10, 0, None)).unwrap();
    let without = apply_result_cache(built.clone(), &cache_off(), gen_result_cache_meta_key(
        "tenant_a".to_string(),
        "select 1".to_string(),
        "sha".to_string(),
    ));
    assert_eq!(without.main_pipeline.stages.len(), built.main_pipeline.stages.len());

    let on = ResultCacheSettings {
        enable_query_result_cache: true,
        max_result_cache_bytes: 1 << 20,
        result_cache_ttl_secs: 300,
    };
    let with = apply_result_cache(built.clone(), &on, gen_result_cache_meta_key(
        "tenant_a".to_string(),
        "select 1".to_string(),
        "sha".to_string(),
    ));
    assert_eq!(with.main_pipeline.stages.len(), built.main_pipeline.stages.len() + 1);
    let last = with.main_pipeline.stages.last().unwrap();
    match last {
        Stage::CacheWrite { key, ttl_secs, max_bytes } => {
            assert_eq!(key.tenant, "tenant_a");
            assert_eq!(key.query_text, "select 1");
            assert_eq!(key.partition_sha, "sha");
            assert_eq!(*ttl_secs, 300);
            assert_eq!(*max_bytes, 1 << 20);
        }
        other => panic!("expected a terminal cache write, found {:?}", other),
    }
}

#[test]
fn execute_select_wires_build_and_cache_together() {
    let settings = ResultCacheSettings {
        enable_query_result_cache: true,
        max_result_cache_bytes: 1024,
        result_cache_ttl_secs: 60,
    };
    let out = execute_select(
        &leaf(10, 0, None),
        &settings,
        "t".to_string(),
        "select x".to_string(),
        "p".to_string(),
    )
    .unwrap();
    assert!(matches!(
        out.main_pipeline.stages.last().unwrap(),
        Stage::CacheWrite { .. }
    ));
}
