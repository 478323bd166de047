//! Reports: the folded results of a run with the branch and the testbed
//! that they belong to and the time that the run took.

use vstd::prelude::*;
use crate::adapter::Adapter;
use crate::metric::BenchmarkResult;
use crate::reduce::FoldOp;
use crate::time::{dated, window_end, window_start, TimeWindow, WindowError};

verus! {

/// The central tendency that a harness is asked to report.
#[derive(Debug, Clone, Copy, PartialEq, Eq, Hash, Structural)]
pub enum Average {
    /// Mean and standard deviation.
    Mean,
    /// Median and interquartile range.
    Median,
}

/// The choices that a run was made with.
#[derive(Debug, Clone, Copy, PartialEq, Eq, Structural)]
pub struct Settings {
    pub adapter: Adapter,
    pub average: Option<Average>,
    pub fold: Option<FoldOp>,
}

/// The branch and the testbed of a run that names none.
#[derive(Debug, Clone, PartialEq, Eq)]
pub struct Defaults {
    pub branch: String,
    pub testbed: String,
}

/// What a run hands in.
#[derive(Debug, PartialEq, Eq)]
pub struct Report {
    pub branch: String,
    pub testbed: String,
    pub window: TimeWindow,
    pub results: Vec<BenchmarkResult>,
    pub settings: Settings,
}

/// The name that was given, or else the default.
pub open spec fn named(given: Option<String>, default: String) -> String {
    match given {
        Some(name) => name,
        None => default,
    }
}

impl Defaults {
    /// The usual defaults: the branch `main` on the testbed `localhost`.
    pub fn main() -> (defaults: Defaults)
        ensures
            defaults.branch@ == "main"@,
            defaults.testbed@ == "localhost"@,
    {
        Defaults { branch: "main".to_owned(), testbed: "localhost".to_owned() }
    }

    /// Puts a report together. The report is for the given branch and
    /// testbed, or for the default ones; its window is that of
    /// [`TimeWindow::measured`]; the results and the settings are taken as
    /// they are.
    pub fn assemble(
        &self,
        branch: Option<String>,
        testbed: Option<String>,
        started: i64,
        finished: i64,
        backdate: Option<i64>,
        results: Vec<BenchmarkResult>,
        settings: Settings,
    ) -> (report: Result<Report, WindowError>)
        ensures
            report is Ok <==> started <= finished && dated(window_start(started, backdate))
                && dated(window_end(started, finished, backdate)),
            report matches Ok(r) ==> {
                &&& r.branch == named(branch, self.branch)
                &&& r.testbed == named(testbed, self.testbed)
                &&& r.window.start() == window_start(started, backdate)
                &&& r.window.end() == window_end(started, finished, backdate)
                &&& r.window.start() <= r.window.end()
                &&& r.results == results
                &&& r.settings == settings
            },
            report matches Err(error) ==> (error is EndsBeforeStart <==> finished < started),
    {
        let window = match TimeWindow::measured(started, finished, backdate) {
            Ok(window) => window,
            Err(error) => {
                return Err(error);
            },
        };
        let branch = match branch {
            Some(name) => name,
            None => self.branch.clone(),
        };
        let testbed = match testbed {
            Some(name) => name,
            None => self.testbed.clone(),
        };
        Ok(Report { branch, testbed, window, results, settings })
    }
}

} // verus!
