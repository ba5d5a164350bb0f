use query_core::spill::merge_units;
use query_core::spill::partition_into_buckets;
use query_core::spill::restore_grouped;
use query_core::spill::AggregateSerdeMeta;
use query_core::spill::SpillPhase;
use query_core::spill::SpillUnit;
use query_core::PlanError;

#[test]
fn serde_meta_equality_is_exact_bucket_equality() {
    let a = AggregateSerdeMeta::create(3);
    let b = AggregateSerdeMeta::create(3);
    let c = AggregateSerdeMeta::create(4);
    let sentinel = AggregateSerdeMeta::create(-1);
    assert!(a.equals(&b));
    assert!(!a.equals(&c));
    assert!(!a.equals(&sentinel));
    assert!(!c.equals(&sentinel));
    assert_eq!(a.clone_self(), a);
    assert_eq!(sentinel.bucket, -1);
}

#[test]
fn partitioning_routes_every_row_by_key_hash() {
    let entries = vec![(0u64, 10u64), (1, 11), (2, 12), (5, 15), (7, 17)];
    let units = partition_into_buckets(&entries, 3);
    assert_eq!(units.len(), 3);
    assert_eq!(units[0].meta.bucket, 0);
    assert_eq!(units[0].rows, vec![(0, 10)]);
    assert_eq!(units[1].rows, vec![(1, 11), (7, 17)]);
    assert_eq!(units[2].rows, vec![(2, 12), (5, 15)]);
}

#[test]
fn restore_groups_strictly_by_equal_bucket_index() {
    let units = vec![
        SpillUnit { meta: AggregateSerdeMeta::create(1), rows: vec![(1, 1)] },
        SpillUnit { meta: AggregateSerdeMeta::create(0), rows: vec![(0, 5)] },
        SpillUnit { meta: AggregateSerdeMeta::create(1), rows: vec![(3, 9)] },
    ];
    let grouped = restore_grouped(&units, 2).unwrap();
    assert_eq!(grouped.len(), 2);
    assert_eq!(grouped[0].meta.bucket, 0);
    assert_eq!(grouped[0].rows, vec![(0, 5)]);
    assert_eq!(grouped[1].meta.bucket, 1);
    assert_eq!(grouped[1].rows, vec![(1, 1), (3, 9)]);
}

#[test]
fn restore_reports_a_missing_bucket_as_a_fault() {
    let units = vec![
        SpillUnit { meta: AggregateSerdeMeta::create(0), rows: Vec::new() },
        SpillUnit { meta: AggregateSerdeMeta::create(2), rows: vec![(2, 2)] },
    ];
    assert_eq!(restore_grouped(&units, 3), Err(PlanError::MissingBucket { bucket: 1 }));
}

#[test]
fn restore_treats_an_empty_bucket_as_valid() {
    let units = vec![
        SpillUnit { meta: AggregateSerdeMeta::create(0), rows: Vec::new() },
        SpillUnit { meta: AggregateSerdeMeta::create(1), rows: vec![(1, 1)] },
    ];
    let grouped = restore_grouped(&units, 2).unwrap();
    assert!(grouped[0].rows.is_empty());
}

#[test]
fn compatible_units_merge_restored_rows_first() {
    let restored = SpillUnit { meta: AggregateSerdeMeta::create(2), rows: vec![(2, 1)] };
    let in_memory = SpillUnit { meta: AggregateSerdeMeta::create(2), rows: vec![(8, 4)] };
    let merged = merge_units(restored, in_memory);
    assert_eq!(merged.meta.bucket, 2);
    assert_eq!(merged.rows, vec![(2, 1), (8, 4)]);
}

#[test]
fn spill_phases_advance_one_way_to_done() {
    let mut phase = SpillPhase::Accumulating;
    phase = phase.advance();
    assert_eq!(phase, SpillPhase::Spilling);
    phase = phase.advance();
    assert_eq!(phase, SpillPhase::Restoring);
    phase = phase.advance();
    assert_eq!(phase, SpillPhase::Merging);
    phase = phase.advance();
    assert_eq!(phase, SpillPhase::Done);
    assert_eq!(phase.advance(), SpillPhase::Done);
}
