//! The options of the `run` command, as plain values.

use vstd::prelude::*;
use vstd::std_specs::convert::FromSpecImpl;
use crate::adapter::Adapter;
use crate::reduce::FoldOp;
use crate::report::Average;

verus! {

/// The options of the `run` command.
#[derive(Debug, Clone, PartialEq, Eq)]
pub struct CliRun {
    /// Project slug or UUID.
    pub project: String,
    pub branch: CliRunBranch,
    /// Testbed name, slug or UUID.
    pub testbed: Option<String>,
    /// Benchmark harness adapter.
    pub adapter: CliRunAdapter,
    /// Central tendency that the harness is asked for.
    pub average: Option<CliRunAverage>,
    /// Number of run iterations.
    pub iter: usize,
    /// Fold multiple results into a single result.
    pub fold: Option<CliRunFold>,
    /// Backdate the report, in seconds since the epoch.
    pub backdate: Option<i64>,
    /// Allow benchmark test failure.
    pub allow_failure: bool,
    /// Error on alert.
    pub err: bool,
    pub output: CliRunOutput,
    pub ci: CliRunCi,
    pub cmd: CliRunCommand,
    /// Do a dry run: no data is saved.
    pub dry_run: bool,
}

/// The branch options.
#[derive(Debug, Clone, PartialEq, Eq)]
pub struct CliRunBranch {
    /// Branch name, slug or UUID.
    pub branch: Option<String>,
    pub hash: CliRunHash,
    /// The branches to start from. Only the first is used.
    pub branch_start_point: Vec<String>,
    /// The `git` hash to start from, which needs a start point.
    pub branch_start_point_hash: Option<String>,
    /// Reset the branch to an empty state.
    pub branch_reset: bool,
    /// Deprecated, without effect.
    pub deprecated: bool,
}

/// The `git` hash options, of which at most one is given.
#[derive(Debug, Clone, PartialEq, Eq)]
pub struct CliRunHash {
    /// `git` commit hash.
    pub hash: Option<String>,
    /// Do not try to find a `git` commit hash.
    pub no_hash: bool,
}

/// The benchmark command options.
#[derive(Debug, Clone, PartialEq, Eq)]
pub struct CliRunCommand {
    pub sh_c: CliRunShell,
    /// Run as an executable, not as a shell command.
    pub executable: bool,
    /// Benchmark command.
    pub command: Option<Vec<String>>,
}

/// The shell options.
#[derive(Debug, Clone, PartialEq, Eq)]
pub struct CliRunShell {
    /// Shell command path.
    pub shell: Option<String>,
    /// Shell command flag.
    pub flag: Option<String>,
}

/// Supported adapters.
#[derive(Debug, Clone, Copy, PartialEq, Eq, Structural)]
pub enum CliRunAdapter {
    Magic,
    Json,
    RustBench,
    GoBench,
}

/// Suggested central tendency.
#[derive(Debug, Clone, Copy, PartialEq, Eq, Structural)]
pub enum CliRunAverage {
    /// Mean and standard deviation.
    Mean,
    /// Median and interquartile range.
    Median,
}

/// Supported fold operations.
#[derive(Debug, Clone, Copy, PartialEq, Eq, Structural)]
pub enum CliRunFold {
    /// Minimum value.
    Min,
    /// Maximum value.
    Max,
    /// Mean of values.
    Mean,
    /// Median of values.
    Median,
}

/// The output options.
#[derive(Debug, Clone, Copy, PartialEq, Eq, Structural)]
pub struct CliRunOutput {
    /// Format of the final report.
    pub format: CliRunFormat,
    /// Quiet mode: only the final report is printed.
    pub quiet: bool,
}

/// Supported report formats.
#[derive(Debug, Clone, Copy, PartialEq, Eq, Structural)]
pub enum CliRunFormat {
    Text,
    Json,
    Html,
}

/// The CI options. All but the first need the first.
#[derive(Debug, Clone, PartialEq, Eq)]
pub struct CliRunCi {
    /// GitHub API authentication token.
    pub github_actions: Option<String>,
    /// Only post results if a threshold exists.
    pub ci_only_thresholds: bool,
    /// Only start posting results if an alert is generated.
    pub ci_only_on_alert: bool,
    /// All links should be to public URLs.
    pub ci_public_links: bool,
    /// Custom ID for posting results.
    pub ci_id: Option<String>,
    /// Issue number for posting results.
    pub ci_number: Option<u64>,
    /// Override the safety checks.
    pub ci_i_am_vulnerable_to_pwn_requests: bool,
    /// Deprecated, without effect.
    pub ci_deprecated: bool,
}

impl CliRunAdapter {
    /// The adapter that the option stands for.
    pub open spec fn adapter(self) -> Adapter {
        match self {
            CliRunAdapter::Magic => Adapter::Magic,
            CliRunAdapter::Json => Adapter::Json,
            CliRunAdapter::RustBench => Adapter::RustBench,
            CliRunAdapter::GoBench => Adapter::GoBench,
        }
    }
}

impl CliRunAverage {
    /// The central tendency that the option stands for.
    pub open spec fn average(self) -> Average {
        match self {
            CliRunAverage::Mean => Average::Mean,
            CliRunAverage::Median => Average::Median,
        }
    }
}

impl CliRunFold {
    /// The fold operation that the option stands for.
    pub open spec fn fold(self) -> FoldOp {
        match self {
            CliRunFold::Min => FoldOp::Min,
            CliRunFold::Max => FoldOp::Max,
            CliRunFold::Mean => FoldOp::Mean,
            CliRunFold::Median => FoldOp::Median,
        }
    }
}

impl From<CliRunAdapter> for Adapter {
    fn from(adapter: CliRunAdapter) -> (converted: Self) {
        match adapter {
            CliRunAdapter::Magic => Adapter::Magic,
            CliRunAdapter::Json => Adapter::Json,
            CliRunAdapter::RustBench => Adapter::RustBench,
            CliRunAdapter::GoBench => Adapter::GoBench,
        }
    }
}

impl FromSpecImpl<CliRunAdapter> for Adapter {
    open spec fn obeys_from_spec() -> bool {
        true
    }

    open spec fn from_spec(adapter: CliRunAdapter) -> Self {
        adapter.adapter()
    }
}

impl From<CliRunAverage> for Average {
    fn from(average: CliRunAverage) -> (converted: Self) {
        match average {
            CliRunAverage::Mean => Average::Mean,
            CliRunAverage::Median => Average::Median,
        }
    }
}

impl FromSpecImpl<CliRunAverage> for Average {
    open spec fn obeys_from_spec() -> bool {
        true
    }

    open spec fn from_spec(average: CliRunAverage) -> Self {
        average.average()
    }
}

impl From<CliRunFold> for FoldOp {
    fn from(fold: CliRunFold) -> (converted: Self) {
        match fold {
            CliRunFold::Min => FoldOp::Min,
            CliRunFold::Max => FoldOp::Max,
            CliRunFold::Mean => FoldOp::Mean,
            CliRunFold::Median => FoldOp::Median,
        }
    }
}

impl FromSpecImpl<CliRunFold> for FoldOp {
    open spec fn obeys_from_spec() -> bool {
        true
    }

    open spec fn from_spec(fold: CliRunFold) -> Self {
        fold.fold()
    }
}

} // verus!
