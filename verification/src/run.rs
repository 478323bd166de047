//! The `run` command: its settings and the order of its steps.

use vstd::prelude::*;
use vstd::std_specs::convert::FromSpecImpl;
use crate::adapter::Adapter;
use crate::cli::{CliRun, CliRunBranch, CliRunCi, CliRunFormat};
use crate::collect::{all_readings, collect, collection, counted, CollectError, Collector, RunOutput};
use crate::metric::BenchmarkResult;
use crate::reading::{Reading, ReadingView};
use crate::reduce::FoldOp;
use crate::report::{named, Average, Defaults, Report, Settings};
use crate::run::runner::{CliError, Runner};
use crate::time::{dated, window_end, window_start, WindowError};

pub mod runner;

verus! {

/// How the final report is written.
#[derive(Debug, Clone, Copy, PartialEq, Eq, Structural)]
pub enum Format {
    Human,
    Json,
    Html,
}

impl CliRunFormat {
    /// The format that the option stands for.
    pub open spec fn format(self) -> Format {
        match self {
            CliRunFormat::Text => Format::Human,
            CliRunFormat::Json => Format::Json,
            CliRunFormat::Html => Format::Html,
        }
    }
}

impl From<CliRunFormat> for Format {
    fn from(format: CliRunFormat) -> (converted: Self) {
        match format {
            CliRunFormat::Text => Format::Human,
            CliRunFormat::Json => Format::Json,
            CliRunFormat::Html => Format::Html,
        }
    }
}

impl FromSpecImpl<CliRunFormat> for Format {
    open spec fn obeys_from_spec() -> bool {
        true
    }

    open spec fn from_spec(format: CliRunFormat) -> Self {
        format.format()
    }
}

/// Which `git` hash a report is for.
#[derive(Debug, Clone, PartialEq, Eq)]
pub enum GitHash {
    /// This one.
    Given(String),
    /// The one that is checked out, if one can be found.
    Find,
    /// None.
    Without,
}

/// Where a new branch starts.
#[derive(Debug, Clone, PartialEq, Eq)]
pub struct StartPoint {
    pub branch: String,
    pub hash: Option<String>,
}

/// The branch of a run.
#[derive(Debug, Clone, PartialEq, Eq)]
pub struct Branch {
    /// Its name, slug or UUID, if one was given.
    pub branch: Option<String>,
    pub hash: GitHash,
    pub start_point: Option<StartPoint>,
    /// Whether the branch is to be emptied first.
    pub reset: bool,
}

/// How results are posted to CI.
#[derive(Debug, Clone, PartialEq, Eq)]
pub struct Ci {
    pub token: String,
    pub only_thresholds: bool,
    pub only_on_alert: bool,
    pub public_links: bool,
    pub id: Option<String>,
    pub number: Option<u64>,
    /// Whether the safety checks are overridden.
    pub vulnerable: bool,
}

/// Why a run failed.
#[derive(Debug, PartialEq, Eq)]
pub enum RunError {
    /// The iterations could not be collected.
    Collect(CollectError),
    /// The report has no time window.
    Window(WindowError),
    /// The report was handed in and raised this many alerts, which is more
    /// than none, and alerts were to be errors.
    Alerts(usize),
}

/// The settings of a run.
#[derive(Debug, PartialEq, Eq)]
pub struct Run {
    pub project: String,
    pub branch: Branch,
    pub testbed: Option<String>,
    pub adapter: Adapter,
    pub average: Option<Average>,
    pub iter: usize,
    pub fold: Option<FoldOp>,
    pub backdate: Option<i64>,
    pub allow_failure: bool,
    pub err: bool,
    pub format: Format,
    pub log: bool,
    pub ci: Option<Ci>,
    pub runner: Runner,
    pub dry_run: bool,
}

impl Branch {
    /// The branch that the options describe: of several start points only
    /// the first counts; a hash is looked for unless one is given or none is
    /// wanted. Options that contradict each other describe none.
    pub open spec fn converted(options: CliRunBranch) -> Result<Branch, CliError> {
        if options.hash.hash is Some && options.hash.no_hash {
            Err(CliError::HashConflict)
        } else if options.branch_start_point_hash is Some && options.branch_start_point@.len()
            == 0 {
            Err(CliError::StartPointHashAlone)
        } else {
            Ok(
                Branch {
                    branch: options.branch,
                    hash: match options.hash.hash {
                        Some(hash) => GitHash::Given(hash),
                        None => if options.hash.no_hash {
                            GitHash::Without
                        } else {
                            GitHash::Find
                        },
                    },
                    start_point: if options.branch_start_point@.len() > 0 {
                        Some(
                            StartPoint {
                                branch: options.branch_start_point@[0],
                                hash: options.branch_start_point_hash,
                            },
                        )
                    } else {
                        None
                    },
                    reset: options.branch_reset,
                },
            )
        }
    }

    /// The branch that the options describe.
    pub fn try_from(options: CliRunBranch) -> (branch: Result<Branch, CliError>)
        ensures
            branch == Branch::converted(options),
    {
        if options.hash.hash.is_some() && options.hash.no_hash {
            return Err(CliError::HashConflict);
        }
        if options.branch_start_point_hash.is_some() && options.branch_start_point.len() == 0 {
            return Err(CliError::StartPointHashAlone);
        }
        let start_point = if options.branch_start_point.len() > 0 {
            Some(
                StartPoint {
                    branch: options.branch_start_point[0].clone(),
                    hash: options.branch_start_point_hash,
                },
            )
        } else {
            None
        };
        let hash = match options.hash.hash {
            Some(hash) => GitHash::Given(hash),
            None => if options.hash.no_hash {
                GitHash::Without
            } else {
                GitHash::Find
            },
        };
        Ok(Branch { branch: options.branch, hash, start_point, reset: options.branch_reset })
    }
}

impl Ci {
    /// Whether one of the options that need the token is given.
    pub open spec fn wanted(options: CliRunCi) -> bool {
        ||| options.ci_only_thresholds
        ||| options.ci_only_on_alert
        ||| options.ci_public_links
        ||| options.ci_id is Some
        ||| options.ci_number is Some
        ||| options.ci_i_am_vulnerable_to_pwn_requests
    }

    /// How the options want results posted to CI: not at all without a
    /// token, and an option that needs the token is an error without it.
    pub open spec fn converted(options: CliRunCi) -> Result<Option<Ci>, CliError> {
        match options.github_actions {
            Some(token) => Ok(
                Some(
                    Ci {
                        token,
                        only_thresholds: options.ci_only_thresholds,
                        only_on_alert: options.ci_only_on_alert,
                        public_links: options.ci_public_links,
                        id: options.ci_id,
                        number: options.ci_number,
                        vulnerable: options.ci_i_am_vulnerable_to_pwn_requests,
                    },
                ),
            ),
            None => if Ci::wanted(options) {
                Err(CliError::CiOptionAlone)
            } else {
                Ok(None)
            },
        }
    }

    /// How the options want results posted to CI.
    pub fn try_from(options: CliRunCi) -> (ci: Result<Option<Ci>, CliError>)
        ensures
            ci == Ci::converted(options),
    {
        let wanted = options.ci_only_thresholds || options.ci_only_on_alert
            || options.ci_public_links || options.ci_id.is_some() || options.ci_number.is_some()
            || options.ci_i_am_vulnerable_to_pwn_requests;
        match options.github_actions {
            Some(token) => Ok(
                Some(
                    Ci {
                        token,
                        only_thresholds: options.ci_only_thresholds,
                        only_on_alert: options.ci_only_on_alert,
                        public_links: options.ci_public_links,
                        id: options.ci_id,
                        number: options.ci_number,
                        vulnerable: options.ci_i_am_vulnerable_to_pwn_requests,
                    },
                ),
            ),
            None => if wanted {
                Err(CliError::CiOptionAlone)
            } else {
                Ok(None)
            },
        }
    }
}

/// The outside work of a run.
#[derive(Debug, Clone, Copy, PartialEq, Eq, Structural)]
pub enum Task {
    /// Compare versions with the service.
    CheckVersion,
    /// Check that posting to CI is safe.
    SafetyCheck,
    /// Run the iterations and make the report.
    Generate,
    /// Show the report that is about to be handed in.
    Present,
    /// Hand the report in.
    Send,
    /// Show what the service made of the report.
    Display,
}

/// What happened last.
#[derive(Debug, Clone, Copy, PartialEq, Eq, Structural)]
pub enum Event {
    /// Nothing yet.
    Started,
    /// A task is done. `Generate` is done when there is a report.
    Done(Task),
    /// `Generate` ended without a report.
    NothingToReport,
    /// `Send` is done, and the service counted this many alerts.
    Sent { alerts: usize },
    /// `Display` is done, for a report with this many alerts.
    Displayed { alerts: usize },
}

/// What happens next.
#[derive(Debug, PartialEq, Eq)]
pub enum Step {
    /// A task is due.
    Do(Task),
    /// Nothing: the run is over, and this is how it ended.
    Finish(Result<(), RunError>),
}

impl Run {
    /// The step that follows `event`.
    ///
    /// The tasks come in the order in which [`Task`] lists them. The safety
    /// check is made only where results are posted to CI. A run without a
    /// report ends at once, and a dry run ends once its report was shown.
    /// A run whose report was handed in and shown fails if alerts are to be
    /// errors and there is an alert.
    pub open spec fn following(self, event: Event) -> Step {
        match event {
            Event::Started => Step::Do(Task::CheckVersion),
            Event::Done(Task::CheckVersion) => if self.ci is Some {
                Step::Do(Task::SafetyCheck)
            } else {
                Step::Do(Task::Generate)
            },
            Event::Done(Task::SafetyCheck) => Step::Do(Task::Generate),
            Event::Done(Task::Generate) => Step::Do(Task::Present),
            Event::NothingToReport => Step::Finish(Ok(())),
            Event::Done(Task::Present) => if self.dry_run {
                Step::Finish(Ok(()))
            } else {
                Step::Do(Task::Send)
            },
            Event::Done(Task::Send) => Step::Do(Task::Display),
            Event::Sent { alerts } => Step::Do(Task::Display),
            Event::Done(Task::Display) => Step::Finish(Ok(())),
            Event::Displayed { alerts } => if self.err && alerts > 0 {
                Step::Finish(Err(RunError::Alerts(alerts)))
            } else {
                Step::Finish(Ok(()))
            },
        }
    }

    /// The step that follows `event`.
    pub fn step(&self, event: Event) -> (step: Step)
        ensures
            step == self.following(event),
    {
        match event {
            Event::Started => Step::Do(Task::CheckVersion),
            Event::Done(Task::CheckVersion) => if self.ci.is_some() {
                Step::Do(Task::SafetyCheck)
            } else {
                Step::Do(Task::Generate)
            },
            Event::Done(Task::SafetyCheck) => Step::Do(Task::Generate),
            Event::Done(Task::Generate) => Step::Do(Task::Present),
            Event::NothingToReport => Step::Finish(Ok(())),
            Event::Done(Task::Present) => if self.dry_run {
                Step::Finish(Ok(()))
            } else {
                Step::Do(Task::Send)
            },
            Event::Done(Task::Send) => Step::Do(Task::Display),
            Event::Sent { alerts } => Step::Do(Task::Display),
            Event::Done(Task::Display) => Step::Finish(Ok(())),
            Event::Displayed { alerts } => if self.err && alerts > 0 {
                Step::Finish(Err(RunError::Alerts(alerts)))
            } else {
                Step::Finish(Ok(()))
            },
        }
    }

    /// The settings that the options ask for. What the environment names as
    /// the benchmark command and what was piped in are handed in with them.
    /// Of several faults the first is reported: in the branch, in the CI
    /// options, in the command.
    pub fn try_from(options: CliRun, from_environment: Option<String>, piped: Option<Vec<u8>>) -> (run:
        Result<Run, CliError>)
        ensures
            run is Ok <==> Branch::converted(options.branch) is Ok && Ci::converted(options.ci)
                is Ok && ((options.cmd.command is Some && options.cmd.command.unwrap()@.len() > 0)
                || from_environment is Some || piped is Some),
            run matches Err(error) ==> error == (match (
                Branch::converted(options.branch),
                Ci::converted(options.ci),
            ) {
                (Err(error), _) => error,
                (Ok(_), Err(error)) => error,
                (Ok(_), Ok(_)) => CliError::NoCommand,
            }),
            run matches Ok(run) ==> {
                &&& run.project == options.project
                &&& Ok::<Branch, CliError>(run.branch) == Branch::converted(options.branch)
                &&& run.testbed == options.testbed
                &&& run.adapter == options.adapter.adapter()
                &&& run.average == match options.average {
                    Some(average) => Some(average.average()),
                    None => None,
                }
                &&& run.iter == options.iter
                &&& run.fold == match options.fold {
                    Some(fold) => Some(fold.fold()),
                    None => None,
                }
                &&& run.backdate == options.backdate
                &&& run.allow_failure == options.allow_failure
                &&& run.err == options.err
                &&& run.format == options.output.format.format()
                &&& run.log == !options.output.quiet
                &&& Ok::<Option<Ci>, CliError>(run.ci) == Ci::converted(options.ci)
                &&& run.dry_run == options.dry_run
                &&& match run.runner {
                    Runner::Command(made) => {
                        &&& made.shell() == options.cmd.sh_c.shell
                        &&& made.flag() == options.cmd.sh_c.flag
                        &&& made.executable() == options.cmd.executable
                        &&& if options.cmd.command is Some && options.cmd.command.unwrap()@.len()
                            > 0 {
                            made.words() == options.cmd.command.unwrap()@
                        } else {
                            from_environment is Some && made.words() == seq![
                                from_environment.unwrap(),
                            ]
                        }
                    },
                    Runner::Pipe(pipe) => {
                        &&& !(options.cmd.command is Some && options.cmd.command.unwrap()@.len()
                            > 0)
                        &&& from_environment is None
                        &&& piped == Some(pipe.input)
                    },
                }
            },
    {
        let CliRun {
            project,
            branch,
            testbed,
            adapter,
            average,
            iter,
            fold,
            backdate,
            allow_failure,
            err,
            output,
            ci,
            cmd,
            dry_run,
        } = options;
        let branch = match Branch::try_from(branch) {
            Ok(branch) => branch,
            Err(error) => {
                return Err(error);
            },
        };
        let ci = match Ci::try_from(ci) {
            Ok(ci) => ci,
            Err(error) => {
                return Err(error);
            },
        };
        let runner = match Runner::try_from(cmd, from_environment, piped) {
            Ok(runner) => runner,
            Err(error) => {
                return Err(error);
            },
        };
        Ok(
            Run {
                project,
                branch,
                testbed,
                adapter: Adapter::from(adapter),
                average: match average {
                    Some(average) => Some(Average::from(average)),
                    None => None,
                },
                iter,
                fold: match fold {
                    Some(fold) => Some(FoldOp::from(fold)),
                    None => None,
                },
                backdate,
                allow_failure,
                err,
                format: Format::from(output.format),
                log: !output.quiet,
                ci,
                runner,
                dry_run,
            },
        )
    }

    /// The collector of the iterations of this run.
    pub fn collector(&self) -> (collector: Collector)
        ensures
            collector.adapter() == self.adapter,
            collector.iterations() == self.iter,
            collector.allow_failure() == self.allow_failure,
            collector.made() == 0,
            collector.results().len() == 0,
    {
        Collector::new(self.adapter, self.iter, self.allow_failure)
    }

    /// Collects the iterations of this run from their outputs, which are
    /// all at hand, in order.
    pub fn collect(&self, outputs: Vec<RunOutput>) -> (collected: Result<Vec<Vec<Reading>>, RunError>)
        ensures
            match collected {
                Ok(results) => collection(
                    self.adapter,
                    self.allow_failure,
                    counted(self.iter, outputs@),
                ) == Ok::<Seq<Seq<ReadingView>>, CollectError>(all_readings(results@)),
                Err(error) => error matches RunError::Collect(error) && collection(
                    self.adapter,
                    self.allow_failure,
                    counted(self.iter, outputs@),
                ) == Err::<Seq<Seq<ReadingView>>, CollectError>(error),
            },
    {
        match collect(self.adapter, self.iter, self.allow_failure, outputs) {
            Ok(results) => Ok(results),
            Err(error) => Err(RunError::Collect(error)),
        }
    }

    /// The report of this run, which started and finished at the given
    /// times, on its results: for the branch and the testbed of the run or
    /// else the default ones, backdated where the run is, with the settings
    /// of the run.
    pub fn report(
        &self,
        defaults: &Defaults,
        started: i64,
        finished: i64,
        results: Vec<BenchmarkResult>,
    ) -> (report: Result<Report, RunError>)
        ensures
            report is Ok <==> started <= finished && dated(window_start(started, self.backdate))
                && dated(window_end(started, finished, self.backdate)),
            report matches Ok(r) ==> {
                &&& r.branch == named(self.branch.branch, defaults.branch)
                &&& r.testbed == named(self.testbed, defaults.testbed)
                &&& r.window.start() == window_start(started, self.backdate)
                &&& r.window.end() == window_end(started, finished, self.backdate)
                &&& r.results == results
                &&& r.settings == (Settings {
                    adapter: self.adapter,
                    average: self.average,
                    fold: self.fold,
                })
            },
            report matches Err(error) ==> error matches RunError::Window(error) && (
            error is EndsBeforeStart <==> finished < started),
    {
        let settings = Settings { adapter: self.adapter, average: self.average, fold: self.fold };
        match defaults.assemble(
            self.branch.branch.clone(),
            self.testbed.clone(),
            started,
            finished,
            self.backdate,
            results,
            settings,
        ) {
            Ok(report) => Ok(report),
            Err(error) => Err(RunError::Window(error)),
        }
    }
}

/// A dry run never hands its report in, and a run only fails on alerts
/// after its report was handed in and shown, where alerts are to be errors
/// and there is one.
pub proof fn lemma_run_policy(run: Run, event: Event)
    ensures
        run.dry_run ==> run.following(event) != Step::Do(Task::Send),
        run.following(event) matches Step::Finish(Err(error)) <==> (event matches Event::Displayed {
            alerts,
        } && run.err && alerts > 0),
        run.following(event) matches Step::Finish(Err(error)) ==> (event matches Event::Displayed {
            alerts,
        } && error == RunError::Alerts(alerts)),
{
}

} // verus!
