use bencher_core::adapter::Adapter;
use bencher_core::metric::{BenchmarkResult, MetricValue};
use bencher_core::number::Real;
use bencher_core::reduce::FoldOp;
use bencher_core::report::{Average, Defaults, Settings};
use bencher_core::time::{TimeWindow, WindowError};

fn defaults() -> Defaults {
    Defaults { branch: "main".to_string(), testbed: "localhost".to_string() }
}

fn settings() -> Settings {
    Settings { adapter: Adapter::Magic, average: Some(Average::Median), fold: Some(FoldOp::Min) }
}

fn results() -> Vec<BenchmarkResult> {
    let value = MetricValue {
        value: Real::from_bits(1.5f64.to_bits()).unwrap(),
        lower_bound: None,
        upper_bound: None,
    };
    vec![BenchmarkResult::new().insert(b"bench".to_vec(), b"latency".to_vec(), value)]
}

#[test]
fn a_backdated_window_keeps_the_length_of_the_run() {
    let window = TimeWindow::measured(1_700_000_000, 1_700_000_042, Some(1_000_000_000)).unwrap();
    assert_eq!(window.start_time(), 1_000_000_000);
    assert_eq!(window.end_time(), 1_000_000_042);
    let later = TimeWindow::measured(1_800_000_000, 1_800_000_042, Some(1_000_000_000)).unwrap();
    assert_eq!(later, window);
    let ahead = TimeWindow::measured(100, 160, Some(2_000_000_000)).unwrap();
    assert_eq!((ahead.start_time(), ahead.end_time()), (2_000_000_000, 2_000_000_060));
}

#[test]
fn a_window_without_backdate_is_the_run_itself() {
    let window = TimeWindow::measured(1_700_000_000, 1_700_000_042, None).unwrap();
    assert_eq!((window.start_time(), window.end_time()), (1_700_000_000, 1_700_000_042));
    let instant = TimeWindow::measured(0, 0, None).unwrap();
    assert_eq!((instant.start_time(), instant.end_time()), (0, 0));
    let early = TimeWindow::measured(-86_400, -1, None).unwrap();
    assert_eq!((early.start_time(), early.end_time()), (-86_400, -1));
}

#[test]
fn a_run_cannot_end_before_it_starts() {
    assert_eq!(TimeWindow::measured(10, 9, None), Err(WindowError::EndsBeforeStart));
    assert_eq!(TimeWindow::measured(10, 9, Some(5)), Err(WindowError::EndsBeforeStart));
    assert_eq!(TimeWindow::measured(i64::MAX, i64::MIN, None), Err(WindowError::EndsBeforeStart));
}

#[test]
fn times_off_the_calendar_are_refused() {
    assert_eq!(TimeWindow::measured(0, i64::MAX, None), Err(WindowError::OffCalendar));
    assert_eq!(TimeWindow::measured(i64::MIN, 0, None), Err(WindowError::OffCalendar));
    assert_eq!(TimeWindow::measured(0, 10, Some(i64::MAX)), Err(WindowError::OffCalendar));
    assert_eq!(TimeWindow::measured(0, 10, Some(i64::MIN)), Err(WindowError::OffCalendar));
    assert_eq!(TimeWindow::measured(i64::MIN, i64::MAX, Some(5)), Err(WindowError::OffCalendar));
    // The year 9999 is on the calendar, and so is the year -1000.
    assert!(TimeWindow::measured(253_402_300_799, 253_402_300_799, None).is_ok());
    assert!(TimeWindow::measured(-93_724_214_400, -93_724_214_400, None).is_ok());
}

#[test]
fn a_report_takes_the_given_names_or_the_defaults() {
    let report = defaults()
        .assemble(Some("feature".to_string()), None, 100, 130, None, results(), settings())
        .unwrap();
    assert_eq!(report.branch, "feature");
    assert_eq!(report.testbed, "localhost");
    assert_eq!((report.window.start_time(), report.window.end_time()), (100, 130));
    assert_eq!(report.results, results());
    assert_eq!(report.settings, settings());
    let report = defaults()
        .assemble(None, Some("ci".to_string()), 100, 130, Some(20), Vec::new(), settings())
        .unwrap();
    assert_eq!(report.branch, "main");
    assert_eq!(report.testbed, "ci");
    assert_eq!((report.window.start_time(), report.window.end_time()), (20, 50));
    assert!(report.results.is_empty());
}

#[test]
fn a_report_without_a_window_is_not_made() {
    assert_eq!(
        defaults().assemble(None, None, 5, 4, None, results(), settings()),
        Err(WindowError::EndsBeforeStart)
    );
    assert_eq!(
        defaults().assemble(None, None, 5, 6, Some(i64::MAX), results(), settings()),
        Err(WindowError::OffCalendar)
    );
}

#[test]
fn the_window_is_shifted_before_it_is_dated() {
    assert_eq!(TimeWindow::shifted(100, 160, Some(1_000)), Ok((1_000, 1_060)));
    assert_eq!(TimeWindow::shifted(100, 160, None), Ok((100, 160)));
    assert_eq!(TimeWindow::shifted(i64::MIN, i64::MAX, None), Ok((i64::MIN, i64::MAX)));
    assert_eq!(TimeWindow::shifted(0, i64::MAX, Some(0)), Ok((0, i64::MAX)));
    assert_eq!(TimeWindow::shifted(0, i64::MAX, Some(1)), Err(WindowError::OffCalendar));
    assert_eq!(TimeWindow::shifted(-1, i64::MAX, Some(0)), Err(WindowError::OffCalendar));
    assert_eq!(TimeWindow::shifted(5, 4, Some(0)), Err(WindowError::EndsBeforeStart));
    assert_eq!(TimeWindow::shifted(i64::MIN, i64::MIN, Some(i64::MIN)), Ok((i64::MIN, i64::MIN)));
}

#[test]
fn the_usual_defaults_are_main_on_localhost() {
    assert_eq!(Defaults::main(), defaults());
}
