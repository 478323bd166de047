use bencher_core::alert::Boundary;
use bencher_core::boundary::{
    compute, select, Computation, Estimate, Middle, Quartiles, Sample, Statistic, TestKind,
};
use bencher_core::number::Real;

fn num(value: f64) -> Real {
    Real::from_bits(value.to_bits()).unwrap()
}

fn history(values: &[(i64, f64)]) -> Vec<Sample> {
    values.iter().map(|(time, value)| Sample { time: *time, value: num(*value) }).collect()
}

fn statistic(test_kind: TestKind) -> Statistic {
    Statistic {
        test_kind,
        min_sample_size: 2,
        max_sample_size: None,
        window: None,
        lower_boundary: Some(num(0.9)),
        upper_boundary: Some(num(0.95)),
    }
}

const KINDS: [TestKind; 5] = [
    TestKind::Zscore,
    TestKind::Ttest,
    TestKind::Percentage,
    TestKind::InterquartileRange,
    TestKind::Static,
];

#[test]
fn a_population_under_the_minimum_has_no_boundary() {
    for kind in KINDS {
        let mut stat = statistic(kind);
        stat.min_sample_size = 3;
        assert_eq!(compute(&history(&[(1, 1.0), (2, 2.0)]), &stat, 10), None);
        assert_eq!(compute(&Vec::new(), &stat, 10), None);
        assert!(compute(&history(&[(1, 1.0), (2, 2.0), (3, 3.0)]), &stat, 10).is_some());
    }
}

#[test]
fn static_limits_are_the_configured_values() {
    let mut stat = statistic(TestKind::Static);
    stat.lower_boundary = Some(num(10.0));
    stat.upper_boundary = Some(num(20.0));
    assert_eq!(
        compute(&history(&[(1, 100.0), (2, 200.0)]), &stat, 10),
        Some(Computation::Limits(Boundary {
            baseline: None,
            lower_limit: Some(num(10.0)),
            upper_limit: Some(num(20.0)),
        }))
    );
    stat.lower_boundary = None;
    stat.min_sample_size = 0;
    assert_eq!(
        compute(&Vec::new(), &stat, 10),
        Some(Computation::Limits(Boundary {
            baseline: None,
            lower_limit: None,
            upper_limit: Some(num(20.0)),
        }))
    );
}

#[test]
fn the_window_is_applied_before_the_maximum_sample_size() {
    let population = history(&[(10, 1.0), (20, 2.0), (30, 3.0), (40, 4.0), (50, 5.0), (60, 6.0)]);
    let mut stat = statistic(TestKind::Zscore);
    stat.window = Some(30);
    stat.max_sample_size = Some(2);
    // At 70 the window holds the values of 40, 50 and 60; the last two are kept.
    assert_eq!(select(&population, &stat, 70), vec![num(5.0), num(6.0)]);
    // At 65 the window holds those of 40, 50 and 60 as well, 35 being the limit.
    assert_eq!(select(&population, &stat, 65), vec![num(5.0), num(6.0)]);
    stat.max_sample_size = Some(5);
    assert_eq!(select(&population, &stat, 70), vec![num(4.0), num(5.0), num(6.0)]);
    stat.window = None;
    assert_eq!(select(&population, &stat, 70), vec![num(2.0), num(3.0), num(4.0), num(5.0), num(6.0)]);
    stat.max_sample_size = None;
    assert_eq!(select(&population, &stat, 70).len(), 6);
    stat.window = Some(0);
    assert_eq!(select(&population, &stat, 60), vec![num(6.0)]);
    stat.window = Some(u64::MAX);
    assert_eq!(select(&population, &stat, i64::MIN).len(), 6);
}

#[test]
fn what_is_left_to_compute_names_the_sample_and_the_configuration() {
    let population = history(&[(10, 1.0), (20, 2.0), (30, 4.0)]);
    for kind in [TestKind::Zscore, TestKind::Ttest, TestKind::Percentage, TestKind::InterquartileRange] {
        let mut stat = statistic(kind);
        stat.max_sample_size = Some(2);
        stat.lower_boundary = None;
        assert_eq!(
            compute(&population, &stat, 30),
            Some(Computation::Deferred(Estimate {
                test_kind: kind,
                sample: vec![num(2.0), num(4.0)],
                lower_boundary: None,
                upper_boundary: Some(num(0.95)),
            }))
        );
    }
}

#[test]
fn a_sample_without_spread_has_its_limits_at_the_baseline() {
    let population = history(&[(10, 7.5), (20, 7.5), (30, 7.5)]);
    for kind in [TestKind::Zscore, TestKind::Ttest, TestKind::InterquartileRange] {
        let mut stat = statistic(kind);
        assert_eq!(
            compute(&population, &stat, 30),
            Some(Computation::Limits(Boundary {
                baseline: Some(num(7.5)),
                lower_limit: Some(num(7.5)),
                upper_limit: Some(num(7.5)),
            }))
        );
        stat.upper_boundary = None;
        assert_eq!(
            compute(&population, &stat, 30),
            Some(Computation::Limits(Boundary {
                baseline: Some(num(7.5)),
                lower_limit: Some(num(7.5)),
                upper_limit: None,
            }))
        );
        stat.min_sample_size = 1;
        assert_eq!(
            compute(&history(&[(10, 3.0)]), &stat, 30),
            Some(Computation::Limits(Boundary {
                baseline: Some(num(3.0)),
                lower_limit: Some(num(3.0)),
                upper_limit: None,
            }))
        );
    }
    let stat = statistic(TestKind::Percentage);
    assert!(matches!(compute(&population, &stat, 30), Some(Computation::Deferred(_))));
}

#[test]
fn a_window_without_values_gives_no_boundary() {
    let population = history(&[(10, 1.0), (20, 2.0)]);
    let mut stat = statistic(TestKind::Zscore);
    stat.window = Some(5);
    assert_eq!(compute(&population, &stat, 100), None);
    stat.max_sample_size = Some(0);
    stat.window = None;
    assert_eq!(compute(&population, &stat, 100), None);
}

#[test]
fn computed_limits_are_kept_on_configured_sides_only() {
    let estimate = Estimate {
        test_kind: TestKind::Zscore,
        sample: vec![num(1.0), num(2.0)],
        lower_boundary: None,
        upper_boundary: Some(num(0.95)),
    };
    assert_eq!(
        estimate.settle(num(1.5), Some(num(0.5)), Some(num(2.5))),
        Boundary { baseline: Some(num(1.5)), lower_limit: None, upper_limit: Some(num(2.5)) }
    );
    assert_eq!(
        estimate.settle(num(1.5), Some(num(0.5)), None),
        Boundary { baseline: Some(num(1.5)), lower_limit: None, upper_limit: None }
    );
}

#[test]
fn probabilities_lie_between_zero_and_one() {
    let population = history(&[(10, 1.0), (20, 2.0), (30, 4.0)]);
    for kind in [TestKind::Zscore, TestKind::Ttest] {
        for (lower, upper) in [(Some(1.5), None), (None, Some(-0.1)), (Some(0.5), Some(1.0000001))] {
            let mut stat = statistic(kind);
            stat.lower_boundary = lower.map(num);
            stat.upper_boundary = upper.map(num);
            assert!(!stat.check());
            assert_eq!(compute(&population, &stat, 30), None);
        }
        for (lower, upper) in [(Some(0.0), Some(1.0)), (Some(-0.0), None), (None, None)] {
            let mut stat = statistic(kind);
            stat.lower_boundary = lower.map(num);
            stat.upper_boundary = upper.map(num);
            assert!(stat.check());
            assert!(compute(&population, &stat, 30).is_some());
        }
    }
    for kind in [TestKind::Percentage, TestKind::InterquartileRange, TestKind::Static] {
        let mut stat = statistic(kind);
        stat.lower_boundary = Some(num(-3.0));
        stat.upper_boundary = Some(num(1.5));
        assert!(stat.check());
        assert!(compute(&population, &stat, 30).is_some());
    }
    assert!(Real::one().is_probability());
    assert!(Real::zero().is_probability());
    assert_eq!(Real::one().to_bits(), 1.0f64.to_bits());
}

fn estimate(values: &[f64]) -> Estimate {
    Estimate {
        test_kind: TestKind::InterquartileRange,
        sample: values.iter().map(|value| num(*value)).collect(),
        lower_boundary: None,
        upper_boundary: Some(num(1.5)),
    }
}

#[test]
fn quartiles_are_the_middles_of_the_sample_and_its_halves() {
    assert_eq!(
        estimate(&[7.0, 1.0, 5.0, 3.0]).quartiles(),
        Some(Quartiles {
            first: Middle::Two(num(1.0), num(3.0)),
            median: Middle::Two(num(3.0), num(5.0)),
            third: Middle::Two(num(5.0), num(7.0)),
        })
    );
    assert_eq!(
        estimate(&[9.0, 7.0, 1.0, 5.0, 3.0]).quartiles(),
        Some(Quartiles {
            first: Middle::Two(num(1.0), num(3.0)),
            median: Middle::One(num(5.0)),
            third: Middle::Two(num(7.0), num(9.0)),
        })
    );
    assert_eq!(
        estimate(&[2.0, -1.0]).quartiles(),
        Some(Quartiles {
            first: Middle::One(num(-1.0)),
            median: Middle::Two(num(-1.0), num(2.0)),
            third: Middle::One(num(2.0)),
        })
    );
    assert_eq!(
        estimate(&[6.0, 5.0, 4.0, 3.0, 2.0, 1.0, 0.0]).quartiles(),
        Some(Quartiles {
            first: Middle::One(num(1.0)),
            median: Middle::One(num(3.0)),
            third: Middle::One(num(5.0)),
        })
    );
    assert_eq!(estimate(&[1.0]).quartiles(), None);
    assert_eq!(estimate(&[]).quartiles(), None);
}

#[test]
fn the_degrees_of_freedom_are_one_less_than_the_sample() {
    assert_eq!(estimate(&[1.0, 2.0, 3.0]).freedom(), Some(2));
    assert_eq!(estimate(&[1.0, 2.0]).freedom(), Some(1));
    assert_eq!(estimate(&[1.0]).freedom(), None);
    assert_eq!(estimate(&[]).freedom(), None);
}
