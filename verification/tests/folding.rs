use bencher_core::fold::{fold, settle, Folded};
use bencher_core::adapter::{parse, Adapter};
use bencher_core::metric::{BenchmarkResult, MetricValue};
use bencher_core::number::Real;
use bencher_core::reduce::{reduce, sorted, FoldOp, Reduced};

fn num(value: f64) -> Real {
    Real::from_bits(value.to_bits()).unwrap()
}

fn plain(value: f64) -> MetricValue {
    MetricValue { value: num(value), lower_bound: None, upper_bound: None }
}

fn bounded(lower: f64, value: f64, upper: f64) -> MetricValue {
    MetricValue { value: num(value), lower_bound: Some(num(lower)), upper_bound: Some(num(upper)) }
}

fn result(entries: &[(&str, &str, MetricValue)]) -> BenchmarkResult {
    let mut result = BenchmarkResult::new();
    for (benchmark, measure, value) in entries {
        result = result.insert(benchmark.as_bytes().to_vec(), measure.as_bytes().to_vec(), *value);
    }
    result
}

fn single(values: &[f64]) -> Vec<BenchmarkResult> {
    values.iter().map(|value| result(&[("bench", "latency", plain(*value))])).collect()
}

fn mean(values: &[MetricValue]) -> f64 {
    let sum: f64 = values.iter().map(|value| f64::from_bits(value.value.to_bits())).sum();
    sum / values.len() as f64
}

fn number(reduced: &Reduced) -> f64 {
    match reduced {
        Reduced::Exact(value) => f64::from_bits(value.value.to_bits()),
        Reduced::Average(values) => mean(values),
    }
}

fn folded(entry: &Folded) -> (String, String, f64) {
    (
        String::from_utf8(entry.benchmark.clone()).unwrap(),
        String::from_utf8(entry.measure.clone()).unwrap(),
        number(&entry.value),
    )
}

#[test]
fn mean_of_three_iterations() {
    let list = fold(&single(&[10.0, 20.0, 30.0]), Some(FoldOp::Mean));
    assert_eq!(list.len(), 1);
    assert_eq!(list[0].value, Reduced::Average(vec![plain(10.0), plain(20.0), plain(30.0)]));
    assert_eq!(folded(&list[0]), ("bench".to_string(), "latency".to_string(), 20.0));
}

#[test]
fn median_of_three_iterations() {
    let list = fold(&single(&[30.0, 10.0, 20.0]), Some(FoldOp::Median));
    assert_eq!(list.len(), 1);
    assert_eq!(list[0].value, Reduced::Exact(plain(20.0)));
    let list = fold(&single(&[10.0, 20.0, 30.0]), Some(FoldOp::Median));
    assert_eq!(list[0].value, Reduced::Exact(plain(20.0)));
}

#[test]
fn median_of_two_iterations() {
    let list = fold(&single(&[20.0, 10.0]), Some(FoldOp::Median));
    assert_eq!(list[0].value, Reduced::Average(vec![plain(10.0), plain(20.0)]));
    assert_eq!(number(&list[0].value), 15.0);
    let list = fold(&single(&[10.0, 20.0]), Some(FoldOp::Median));
    assert_eq!(number(&list[0].value), 15.0);
}

#[test]
fn median_of_four_iterations_takes_the_two_in_the_middle() {
    let list = fold(&single(&[40.0, 10.0, 30.0, 20.0]), Some(FoldOp::Median));
    assert_eq!(list[0].value, Reduced::Average(vec![plain(20.0), plain(30.0)]));
    assert_eq!(number(&list[0].value), 25.0);
}

#[test]
fn min_and_max_are_the_extremes() {
    let values = [3.5, -2.0, 8.25, -2.0, 7.0];
    let list = fold(&single(&values), Some(FoldOp::Min));
    assert_eq!(list[0].value, Reduced::Exact(plain(-2.0)));
    let list = fold(&single(&values), Some(FoldOp::Max));
    assert_eq!(list[0].value, Reduced::Exact(plain(8.25)));
}

#[test]
fn the_first_of_equal_extremes_is_taken_with_its_bounds() {
    let results = vec![
        result(&[("bench", "latency", bounded(1.0, 2.0, 3.0))]),
        result(&[("bench", "latency", bounded(0.0, 2.0, 9.0))]),
        result(&[("bench", "latency", bounded(4.0, 5.0, 6.0))]),
    ];
    let list = fold(&results, Some(FoldOp::Min));
    assert_eq!(list[0].value, Reduced::Exact(bounded(1.0, 2.0, 3.0)));
    let results = vec![
        result(&[("bench", "latency", bounded(1.0, 2.0, 3.0))]),
        result(&[("bench", "latency", bounded(4.0, 5.0, 6.0))]),
        result(&[("bench", "latency", bounded(0.0, 5.0, 9.0))]),
    ];
    let list = fold(&results, Some(FoldOp::Max));
    assert_eq!(list[0].value, Reduced::Exact(bounded(4.0, 5.0, 6.0)));
}

#[test]
fn a_single_iteration_folds_to_itself() {
    let only = vec![result(&[
        ("b", "latency", bounded(1.0, 2.0, 3.0)),
        ("a", "latency", plain(7.0)),
        ("a", "throughput", plain(-1.5)),
    ])];
    for op in [None, Some(FoldOp::Min), Some(FoldOp::Max), Some(FoldOp::Mean), Some(FoldOp::Median)] {
        let list = fold(&only, op);
        assert_eq!(list.len(), 3);
        assert_eq!(list[0].benchmark, b"b".to_vec());
        assert_eq!(list[0].measure, b"latency".to_vec());
        assert_eq!(list[0].value, Reduced::Exact(bounded(1.0, 2.0, 3.0)));
        assert_eq!(list[1].benchmark, b"a".to_vec());
        assert_eq!(list[1].measure, b"latency".to_vec());
        assert_eq!(list[1].value, Reduced::Exact(plain(7.0)));
        assert_eq!(list[2].benchmark, b"a".to_vec());
        assert_eq!(list[2].measure, b"throughput".to_vec());
        assert_eq!(list[2].value, Reduced::Exact(plain(-1.5)));
    }
}

#[test]
fn without_an_operation_only_the_last_iteration_is_kept() {
    let results = vec![
        result(&[("a", "latency", plain(1.0)), ("b", "latency", plain(2.0))]),
        result(&[("a", "latency", plain(3.0)), ("c", "latency", plain(4.0))]),
    ];
    let list = fold(&results, None);
    assert_eq!(list.len(), 2);
    assert_eq!(folded(&list[0]), ("a".to_string(), "latency".to_string(), 3.0));
    assert_eq!(folded(&list[1]), ("c".to_string(), "latency".to_string(), 4.0));
    assert!(fold(&Vec::new(), None).is_empty());
    assert!(fold(&Vec::new(), Some(FoldOp::Mean)).is_empty());
}

#[test]
fn a_benchmark_missing_from_an_iteration_does_not_block_the_others() {
    let results = vec![
        result(&[("a", "latency", plain(10.0)), ("b", "latency", plain(1.0))]),
        result(&[("c", "latency", plain(5.0)), ("a", "latency", plain(30.0))]),
        result(&[("b", "latency", plain(3.0)), ("a", "latency", plain(20.0)), ("a", "size", plain(9.0))]),
    ];
    let list = fold(&results, Some(FoldOp::Mean));
    let list: Vec<_> = list.iter().map(folded).collect();
    assert_eq!(
        list,
        vec![
            ("a".to_string(), "latency".to_string(), 20.0),
            ("b".to_string(), "latency".to_string(), 2.0),
            ("c".to_string(), "latency".to_string(), 5.0),
            ("a".to_string(), "size".to_string(), 9.0),
        ]
    );
    let list = fold(&results, Some(FoldOp::Max));
    let list: Vec<_> = list.iter().map(folded).collect();
    assert_eq!(
        list,
        vec![
            ("a".to_string(), "latency".to_string(), 30.0),
            ("b".to_string(), "latency".to_string(), 3.0),
            ("c".to_string(), "latency".to_string(), 5.0),
            ("a".to_string(), "size".to_string(), 9.0),
        ]
    );
}

#[test]
fn sorting_is_stable_and_numeric() {
    let values = vec![
        bounded(0.0, 2.0, 1.0),
        plain(-3.0),
        bounded(0.0, 2.0, 2.0),
        plain(0.0),
        plain(-0.0),
        plain(1.0e-300),
        bounded(0.0, 2.0, 3.0),
    ];
    let ordered = sorted(&values);
    assert_eq!(
        ordered,
        vec![
            plain(-3.0),
            plain(0.0),
            plain(-0.0),
            plain(1.0e-300),
            bounded(0.0, 2.0, 1.0),
            bounded(0.0, 2.0, 2.0),
            bounded(0.0, 2.0, 3.0),
        ]
    );
}

#[test]
fn nothing_reduces_to_nothing() {
    for op in [FoldOp::Min, FoldOp::Max, FoldOp::Mean, FoldOp::Median] {
        assert_eq!(reduce(op, &Vec::new()), None);
        assert_eq!(reduce(op, &vec![plain(4.0)]), Some(Reduced::Exact(plain(4.0))));
    }
}

#[test]
fn a_result_holds_one_value_for_each_measure_of_each_benchmark() {
    let filled = result(&[
        ("a", "latency", plain(1.0)),
        ("b", "latency", plain(2.0)),
        ("a", "latency", plain(3.0)),
    ]);
    assert_eq!(filled.len(), 2);
    assert_eq!(filled.get(b"a", b"latency"), Some(plain(3.0)));
    assert_eq!(filled.get(b"b", b"latency"), Some(plain(2.0)));
    assert_eq!(filled.get(b"a", b"size"), None);
    assert_eq!(filled.metrics()[0].benchmark, b"a".to_vec());
    assert_eq!(filled.metrics()[1].benchmark, b"b".to_vec());
}

#[test]
fn computed_means_are_put_in_where_they_are_asked_for() {
    let results = vec![
        result(&[("a", "latency", plain(10.0)), ("b", "latency", plain(1.0))]),
        result(&[("c", "latency", plain(5.0)), ("a", "latency", plain(30.0))]),
        result(&[("b", "latency", plain(3.0)), ("a", "latency", plain(20.0))]),
    ];
    let list = fold(&results, Some(FoldOp::Mean));
    let means: Vec<MetricValue> = list
        .iter()
        .filter_map(|entry| match &entry.value {
            Reduced::Average(values) => Some(plain(mean(values))),
            Reduced::Exact(_) => None,
        })
        .collect();
    assert_eq!(means, vec![plain(20.0), plain(2.0)]);
    let settled = settle(&list, &means).unwrap();
    assert_eq!(
        settled,
        result(&[
            ("a", "latency", plain(20.0)),
            ("b", "latency", plain(2.0)),
            ("c", "latency", plain(5.0)),
        ])
    );
    assert_eq!(settle(&list, &vec![plain(20.0)]), None);
    assert_eq!(settle(&list, &vec![plain(20.0), plain(2.0), plain(5.0)]), None);
    assert_eq!(settle(&Vec::new(), &Vec::new()), Some(BenchmarkResult::new()));
}

#[test]
fn a_list_with_a_key_twice_is_not_settled() {
    let twice = vec![
        Folded { benchmark: b"a".to_vec(), measure: b"m".to_vec(), value: Reduced::Exact(plain(1.0)) },
        Folded { benchmark: b"a".to_vec(), measure: b"m".to_vec(), value: Reduced::Exact(plain(2.0)) },
    ];
    assert_eq!(settle(&twice, &Vec::new()), None);
}

#[test]
fn values_are_finite() {
    let finite = MetricValue::from_bits(1.5f64.to_bits(), None, Some(2.5f64.to_bits())).unwrap();
    assert_eq!(
        finite,
        MetricValue { value: num(1.5), lower_bound: None, upper_bound: Some(num(2.5)) }
    );
    let inf = f64::INFINITY.to_bits();
    let nan = f64::NAN.to_bits();
    let one = 1.0f64.to_bits();
    assert_eq!(MetricValue::from_bits(inf, None, None), None);
    assert_eq!(MetricValue::from_bits(nan, None, None), None);
    assert_eq!(MetricValue::from_bits(one, Some(nan), None), None);
    assert_eq!(MetricValue::from_bits(one, None, Some(inf)), None);
    assert_eq!(MetricValue::from_bits(one, Some(one), Some(f64::NEG_INFINITY.to_bits())), None);
    assert!(MetricValue::from_bits(one, Some(one), Some(one)).is_some());
}

#[test]
fn readings_become_metrics_in_their_order() {
    let raw = b"test b ... bench: 1 ns/iter (+/- 0)\ntest a ... bench: 2 ns/iter (+/- 0)\ntest b ... bench: 3 ns/iter (+/- 0)\n";
    let found = parse(Adapter::RustBench, raw).unwrap();
    let values = vec![plain(1.0), plain(2.0), plain(3.0)];
    assert_eq!(
        BenchmarkResult::from_readings(&found, &values),
        Some(result(&[("b", "latency", plain(3.0)), ("a", "latency", plain(2.0))]))
    );
    assert_eq!(BenchmarkResult::from_readings(&found, &vec![plain(1.0)]), None);
    assert_eq!(
        BenchmarkResult::from_readings(&Vec::new(), &Vec::new()),
        Some(BenchmarkResult::new())
    );
}
