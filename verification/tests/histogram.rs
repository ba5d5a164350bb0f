use query_core::histogram::Histogram;
use query_core::histogram::HistogramBucket;
use query_core::scalar::Scalar;

#[test]
fn test_histogram() {
    let buckets = vec![
        HistogramBucket::new(Scalar::Number(1), 2, 1),
        HistogramBucket::new(Scalar::Number(2), 2, 1),
    ];

    let histogram = Histogram::new(buckets);
    assert_eq!(histogram.num_buckets(), 2);
    assert_eq!(histogram.num_values(), 4);
    assert_eq!(histogram.num_distinct_values(), 2);
}

#[test]
fn empty_histogram_has_no_values() {
    let histogram = Histogram::new(Vec::new());
    assert_eq!(histogram.num_buckets(), 0);
    assert_eq!(histogram.num_values(), 0);
    assert_eq!(histogram.num_distinct_values(), 0);
}

#[test]
fn histogram_sums_are_reductions_over_many_buckets() {
    let mut buckets = Vec::new();
    let mut expected_values = 0u64;
    let mut expected_ndv = 0u64;
    for i in 0..10u64 {
        buckets.push(HistogramBucket::new(Scalar::Number(i as i64), i + 1, i));
        expected_values += i + 1;
        expected_ndv += i;
    }
    let histogram = Histogram::new(buckets);
    assert_eq!(histogram.num_buckets(), 10);
    assert_eq!(histogram.num_values(), expected_values);
    assert_eq!(histogram.num_distinct_values(), expected_ndv);
}
