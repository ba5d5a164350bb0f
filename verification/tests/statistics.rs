use query_core::codec::decode_statistics;
use query_core::codec::encode_statistics;
use query_core::legacy::ClusterStatisticsV0;
use query_core::legacy::ColumnStatisticsV0;
use query_core::legacy::value_fits;
use query_core::legacy::LegacyScalar;
use query_core::legacy::StatisticsV0;
use query_core::scalar::DataType;
use query_core::scalar::IndexScalar;
use query_core::scalar::Scalar;
use query_core::scalar::TypeKind;
use query_core::stats::ClusterStatistics;
use query_core::stats::ColumnStatistics;
use query_core::stats::Statistics;

fn number_type() -> DataType {
    DataType { nullable: false, kind: TypeKind::Number }
}

fn boolean_type() -> DataType {
    DataType { nullable: false, kind: TypeKind::Boolean }
}

#[test]
fn merged_column_statistics_aggregate_bounds_and_counts() {
    let a = ColumnStatistics::new(Scalar::Number(3), Scalar::Number(10), 2, 100, Some(5));
    let b = ColumnStatistics::new(Scalar::Number(-1), Scalar::Number(7), 4, 50, Some(4));
    assert!(a.min.comparable_with(&b.min));
    assert!(a.max.comparable_with(&b.max));
    assert!(!a.min.comparable_with(&IndexScalar::Date(3)));
    let merged = a.merge(b);
    assert_eq!(merged.min(), Scalar::Number(-1));
    assert_eq!(merged.max(), Scalar::Number(10));
    assert_eq!(merged.null_count, 6);
    assert_eq!(merged.in_memory_size, 150);
    assert_eq!(merged.distinct_of_values, None);
}

#[test]
fn merged_string_bounds_compare_lexicographically() {
    let a = ColumnStatistics::new(
        Scalar::String(b"apple".to_vec()),
        Scalar::String(b"pear".to_vec()),
        0,
        10,
        None,
    );
    let b = ColumnStatistics::new(
        Scalar::String(b"apricot".to_vec()),
        Scalar::String(b"plum".to_vec()),
        1,
        20,
        None,
    );
    let merged = a.merge(b);
    assert_eq!(merged.min(), Scalar::String(b"apple".to_vec()));
    assert_eq!(merged.max(), Scalar::String(b"plum".to_vec()));
}

#[test]
fn cluster_statistics_is_const_iff_bounds_match() {
    let stats = ClusterStatistics::new(
        7,
        vec![Scalar::Number(1), Scalar::Number(2)],
        vec![Scalar::Number(1), Scalar::Number(2)],
        0,
        None,
    );
    assert!(stats.is_const());

    let stats = ClusterStatistics::new(
        7,
        vec![Scalar::Number(1), Scalar::Number(2)],
        vec![Scalar::Number(1), Scalar::Number(3)],
        0,
        None,
    );
    assert!(!stats.is_const());
}

#[test]
fn column_migration_preserves_counts_and_types_bounds() {
    let v0 = ColumnStatisticsV0 {
        min: LegacyScalar::UInt(5),
        max: LegacyScalar::UInt(90),
        null_count: 11,
        in_memory_size: 4000,
    };
    let migrated = ColumnStatistics::from_v0(&v0, &number_type()).unwrap();
    assert_eq!(migrated.min, IndexScalar::Number(5));
    assert_eq!(migrated.max, IndexScalar::Number(90));
    assert_eq!(migrated.null_count, 11);
    assert_eq!(migrated.in_memory_size, 4000);
    assert_eq!(migrated.distinct_of_values, None);
}

#[test]
fn legacy_values_fit_only_matching_declared_types() {
    assert!(value_fits(&LegacyScalar::Int(-3), &number_type()));
    assert!(value_fits(&LegacyScalar::UInt(3), &number_type()));
    assert!(!value_fits(&LegacyScalar::UInt(u64::MAX), &number_type()));
    assert!(!value_fits(&LegacyScalar::String(b"x".to_vec()), &number_type()));
    assert!(value_fits(
        &LegacyScalar::String(b"x".to_vec()),
        &DataType { nullable: false, kind: TypeKind::String }
    ));
    assert!(!value_fits(&LegacyScalar::Boolean(true), &boolean_type()));
}

#[test]
fn column_migration_drops_unsupported_types() {
    let v0 = ColumnStatisticsV0 {
        min: LegacyScalar::Boolean(false),
        max: LegacyScalar::Boolean(true),
        null_count: 1,
        in_memory_size: 8,
    };
    assert!(ColumnStatistics::from_v0(&v0, &boolean_type()).is_none());
}

#[test]
fn cluster_migration_retypes_bounds_and_drops_pages() {
    let v0 = ClusterStatisticsV0 {
        cluster_key_id: 3,
        min: vec![LegacyScalar::Int(1), LegacyScalar::Int(2)],
        max: vec![LegacyScalar::Int(9), LegacyScalar::Int(8)],
        level: 2,
    };
    let migrated = ClusterStatistics::from_v0(v0, &number_type()).unwrap();
    assert_eq!(migrated.cluster_key_id, 3);
    assert_eq!(migrated.level, 2);
    assert_eq!(migrated.min, vec![IndexScalar::Number(1), IndexScalar::Number(2)]);
    assert_eq!(migrated.max, vec![IndexScalar::Number(9), IndexScalar::Number(8)]);
    assert!(migrated.pages.is_none());
}

#[test]
fn table_migration_keeps_supported_columns_and_counts() {
    let v0 = StatisticsV0 {
        row_count: 1000,
        block_count: 10,
        perfect_block_count: 4,
        uncompressed_byte_size: 80_000,
        compressed_byte_size: 20_000,
        index_size: 512,
        col_stats: vec![
            (
                0,
                ColumnStatisticsV0 {
                    min: LegacyScalar::Int(-5),
                    max: LegacyScalar::Int(5),
                    null_count: 3,
                    in_memory_size: 100,
                },
            ),
            (
                1,
                ColumnStatisticsV0 {
                    min: LegacyScalar::Boolean(false),
                    max: LegacyScalar::Boolean(true),
                    null_count: 0,
                    in_memory_size: 10,
                },
            ),
            (
                2,
                ColumnStatisticsV0 {
                    min: LegacyScalar::String(b"a".to_vec()),
                    max: LegacyScalar::String(b"z".to_vec()),
                    null_count: 7,
                    in_memory_size: 900,
                },
            ),
        ],
    };
    let fields = vec![
        number_type(),
        boolean_type(),
        DataType { nullable: true, kind: TypeKind::String },
    ];
    let migrated = Statistics::from_v0(v0, &fields);
    assert_eq!(migrated.row_count, 1000);
    assert_eq!(migrated.block_count, 10);
    assert_eq!(migrated.perfect_block_count, 4);
    assert_eq!(migrated.uncompressed_byte_size, 80_000);
    assert_eq!(migrated.compressed_byte_size, 20_000);
    assert_eq!(migrated.index_size, 512);
    assert!(migrated.cluster_stats.is_none());
    // The boolean column is dropped entirely; the others are retyped.
    assert_eq!(migrated.col_stats.len(), 2);
    assert_eq!(migrated.col_stats[0].0, 0);
    assert_eq!(migrated.col_stats[0].1.min, IndexScalar::Number(-5));
    assert_eq!(migrated.col_stats[0].1.null_count, 3);
    assert_eq!(migrated.col_stats[1].0, 2);
    assert_eq!(migrated.col_stats[1].1.min, IndexScalar::String(b"a".to_vec()));
    assert_eq!(migrated.col_stats[1].1.in_memory_size, 900);
    assert_eq!(migrated.col_stats[1].1.distinct_of_values, None);
}

#[test]
fn statistics_round_trip_through_persisted_image() {
    let stats = Statistics {
        row_count: 42,
        block_count: 3,
        perfect_block_count: 1,
        uncompressed_byte_size: 10_000,
        compressed_byte_size: 2_500,
        index_size: 128,
        col_stats: vec![
            (
                0,
                ColumnStatistics::new(Scalar::Number(-3), Scalar::Number(99), 1, 800, Some(17)),
            ),
            (
                4,
                ColumnStatistics::new(
                    Scalar::String(b"ab".to_vec()),
                    Scalar::String(b"zz".to_vec()),
                    0,
                    1_200,
                    None,
                ),
            ),
            (
                5,
                ColumnStatistics::new(
                    Scalar::Decimal { value: 1234, scale: 2 },
                    Scalar::Decimal { value: 99_999, scale: 2 },
                    2,
                    64,
                    Some(3),
                ),
            ),
        ],
        cluster_stats: Some(ClusterStatistics::new(
            9,
            vec![Scalar::Date(100), Scalar::Timestamp(1_000_000)],
            vec![Scalar::Date(365), Scalar::Timestamp(2_000_000)],
            1,
            Some(vec![Scalar::Date(100), Scalar::Date(200)]),
        )),
    };
    let image = encode_statistics(&stats);
    let decoded = decode_statistics(&image).unwrap();
    assert_eq!(decoded, stats);
}

#[test]
fn decoding_rejects_truncated_and_trailing_images() {
    let stats = Statistics {
        row_count: 1,
        block_count: 1,
        perfect_block_count: 1,
        uncompressed_byte_size: 1,
        compressed_byte_size: 1,
        index_size: 1,
        col_stats: Vec::new(),
        cluster_stats: None,
    };
    let mut image = encode_statistics(&stats);
    let mut truncated = image.clone();
    truncated.pop();
    assert!(decode_statistics(&truncated).is_none());
    image.push(0);
    assert!(decode_statistics(&image).is_none());
}
