use bencher_core::adapter::Adapter;
use bencher_core::cli::{
    CliRun, CliRunAdapter, CliRunAverage, CliRunBranch, CliRunCi, CliRunCommand, CliRunFold,
    CliRunFormat, CliRunHash, CliRunOutput, CliRunShell,
};
use bencher_core::collect::{CollectError, Next, RunOutput};
use bencher_core::reduce::FoldOp;
use bencher_core::report::{Average, Defaults, Settings};
use bencher_core::run::runner::{CliError, Execution, Invocation, Pipe, Runner, Shell};
use bencher_core::run::{Branch, Ci, Event, Format, GitHash, Run, RunError, StartPoint, Step, Task};
use bencher_core::time::WindowError;

fn words(list: &[&str]) -> Vec<String> {
    list.iter().map(|word| word.to_string()).collect()
}

fn command(list: Option<&[&str]>) -> CliRunCommand {
    CliRunCommand {
        sh_c: CliRunShell { shell: None, flag: None },
        executable: false,
        command: list.map(words),
    }
}

fn options() -> CliRun {
    CliRun {
        project: "project".to_string(),
        branch: CliRunBranch {
            branch: Some("feature".to_string()),
            hash: CliRunHash { hash: None, no_hash: false },
            branch_start_point: Vec::new(),
            branch_start_point_hash: None,
            branch_reset: false,
            deprecated: false,
        },
        testbed: None,
        adapter: CliRunAdapter::RustBench,
        average: Some(CliRunAverage::Median),
        iter: 3,
        fold: Some(CliRunFold::Max),
        backdate: Some(1_000),
        allow_failure: true,
        err: true,
        output: CliRunOutput { format: CliRunFormat::Text, quiet: true },
        ci: CliRunCi {
            github_actions: None,
            ci_only_thresholds: false,
            ci_only_on_alert: false,
            ci_public_links: false,
            ci_id: None,
            ci_number: None,
            ci_i_am_vulnerable_to_pwn_requests: false,
            ci_deprecated: false,
        },
        cmd: command(Some(&["cargo bench"])),
        dry_run: false,
    }
}

fn shell() -> Shell {
    Shell { path: "/bin/sh".to_string(), flag: "-c".to_string() }
}

fn run() -> Run {
    Run::try_from(options(), None, None).unwrap()
}

#[test]
fn options_become_settings() {
    let run = run();
    assert_eq!(run.project, "project");
    assert_eq!(
        run.branch,
        Branch {
            branch: Some("feature".to_string()),
            hash: GitHash::Find,
            start_point: None,
            reset: false
        }
    );
    assert_eq!(run.testbed, None);
    assert_eq!(run.adapter, Adapter::RustBench);
    assert_eq!(run.average, Some(Average::Median));
    assert_eq!(run.iter, 3);
    assert_eq!(run.fold, Some(FoldOp::Max));
    assert_eq!(run.backdate, Some(1_000));
    assert!(run.allow_failure);
    assert!(run.err);
    assert_eq!(run.format, Format::Human);
    assert!(!run.log);
    assert_eq!(run.ci, None);
    assert!(!run.dry_run);
    assert_eq!(
        run.runner.run(&shell()),
        Execution::Spawn(Invocation {
            program: "/bin/sh".to_string(),
            arguments: words(&["-c", "cargo bench"])
        })
    );
}

#[test]
fn every_option_value_has_its_setting() {
    assert_eq!(Adapter::from(CliRunAdapter::Magic), Adapter::Magic);
    assert_eq!(Adapter::from(CliRunAdapter::Json), Adapter::Json);
    assert_eq!(Adapter::from(CliRunAdapter::RustBench), Adapter::RustBench);
    assert_eq!(Adapter::from(CliRunAdapter::GoBench), Adapter::GoBench);
    assert_eq!(Average::from(CliRunAverage::Mean), Average::Mean);
    assert_eq!(Average::from(CliRunAverage::Median), Average::Median);
    assert_eq!(FoldOp::from(CliRunFold::Min), FoldOp::Min);
    assert_eq!(FoldOp::from(CliRunFold::Max), FoldOp::Max);
    assert_eq!(FoldOp::from(CliRunFold::Mean), FoldOp::Mean);
    assert_eq!(FoldOp::from(CliRunFold::Median), FoldOp::Median);
    assert_eq!(Format::from(CliRunFormat::Text), Format::Human);
    assert_eq!(Format::from(CliRunFormat::Json), Format::Json);
    assert_eq!(Format::from(CliRunFormat::Html), Format::Html);
}

#[test]
fn branch_options_are_checked() {
    let mut given = options().branch;
    given.hash = CliRunHash { hash: Some("abc".to_string()), no_hash: true };
    assert_eq!(Branch::try_from(given), Err(CliError::HashConflict));
    let mut given = options().branch;
    given.branch_start_point_hash = Some("abc".to_string());
    assert_eq!(Branch::try_from(given), Err(CliError::StartPointHashAlone));
    let mut given = options().branch;
    given.branch = None;
    given.hash = CliRunHash { hash: None, no_hash: true };
    given.branch_start_point = words(&["main", "other"]);
    given.branch_start_point_hash = Some("abc".to_string());
    given.branch_reset = true;
    assert_eq!(
        Branch::try_from(given),
        Ok(Branch {
            branch: None,
            hash: GitHash::Without,
            start_point: Some(StartPoint {
                branch: "main".to_string(),
                hash: Some("abc".to_string())
            }),
            reset: true,
        })
    );
    let mut given = options().branch;
    given.hash = CliRunHash { hash: Some("abc".to_string()), no_hash: false };
    assert_eq!(Branch::try_from(given).unwrap().hash, GitHash::Given("abc".to_string()));
}

#[test]
fn ci_options_need_the_token() {
    let none = options().ci;
    assert_eq!(Ci::try_from(none.clone()), Ok(None));
    let mut deprecated = none.clone();
    deprecated.ci_deprecated = true;
    assert_eq!(Ci::try_from(deprecated), Ok(None));
    let alone: [fn(&mut CliRunCi); 6] = [
        |ci| ci.ci_only_thresholds = true,
        |ci| ci.ci_only_on_alert = true,
        |ci| ci.ci_public_links = true,
        |ci| ci.ci_id = Some("id".to_string()),
        |ci| ci.ci_number = Some(7),
        |ci| ci.ci_i_am_vulnerable_to_pwn_requests = true,
    ];
    for set in alone {
        let mut given = none.clone();
        set(&mut given);
        assert_eq!(Ci::try_from(given), Err(CliError::CiOptionAlone));
    }
    let mut given = none.clone();
    given.github_actions = Some("token".to_string());
    given.ci_only_on_alert = true;
    given.ci_number = Some(7);
    assert_eq!(
        Ci::try_from(given),
        Ok(Some(Ci {
            token: "token".to_string(),
            only_thresholds: false,
            only_on_alert: true,
            public_links: false,
            id: None,
            number: Some(7),
            vulnerable: false,
        }))
    );
}

#[test]
fn the_first_fault_of_the_options_is_reported() {
    let mut given = options();
    given.branch.branch_start_point_hash = Some("abc".to_string());
    given.ci.ci_only_on_alert = true;
    given.cmd = command(None);
    assert_eq!(Run::try_from(given, None, None), Err(CliError::StartPointHashAlone));
    let mut given = options();
    given.ci.ci_only_on_alert = true;
    given.cmd = command(None);
    assert_eq!(Run::try_from(given, None, None), Err(CliError::CiOptionAlone));
    let mut given = options();
    given.cmd = command(None);
    assert_eq!(Run::try_from(given, None, None), Err(CliError::NoCommand));
}

#[test]
fn the_command_comes_from_the_options_the_environment_or_the_pipe() {
    let piped = Some(b"test a ... bench: 1 ns/iter (+/- 0)\n".to_vec());
    let named = Some("make bench".to_string());
    let runner = Runner::try_from(command(Some(&["cargo", "bench"])), named.clone(), piped.clone())
        .unwrap();
    assert_eq!(
        runner.run(&shell()),
        Execution::Spawn(Invocation { program: "cargo".to_string(), arguments: words(&["bench"]) })
    );
    for absent in [command(None), command(Some(&[]))] {
        let runner = Runner::try_from(absent.clone(), named.clone(), piped.clone()).unwrap();
        assert_eq!(
            runner.run(&shell()),
            Execution::Spawn(Invocation {
                program: "/bin/sh".to_string(),
                arguments: words(&["-c", "make bench"])
            })
        );
        let runner = Runner::try_from(absent.clone(), None, piped.clone()).unwrap();
        assert_eq!(runner, Runner::Pipe(Pipe { input: piped.clone().unwrap() }));
        assert_eq!(
            runner.run(&shell()),
            Execution::Ready(RunOutput { success: true, text: piped.clone().unwrap() })
        );
        assert_eq!(Runner::try_from(absent, None, None), Err(CliError::NoCommand));
    }
}

#[test]
fn a_command_is_run_by_the_shell_or_as_an_executable() {
    let mut one = command(Some(&["./bench.sh --all"]));
    one.sh_c = CliRunShell { shell: Some("/bin/bash".to_string()), flag: None };
    let runner = Runner::try_from(one.clone(), None, None).unwrap();
    assert_eq!(
        runner.run(&shell()),
        Execution::Spawn(Invocation {
            program: "/bin/bash".to_string(),
            arguments: words(&["-c", "./bench.sh --all"])
        })
    );
    one.sh_c = CliRunShell { shell: None, flag: Some("-lc".to_string()) };
    let runner = Runner::try_from(one.clone(), None, None).unwrap();
    assert_eq!(
        runner.run(&shell()),
        Execution::Spawn(Invocation {
            program: "/bin/sh".to_string(),
            arguments: words(&["-lc", "./bench.sh --all"])
        })
    );
    one.executable = true;
    let runner = Runner::try_from(one, None, None).unwrap();
    assert_eq!(
        runner.run(&shell()),
        Execution::Spawn(Invocation { program: "./bench.sh --all".to_string(), arguments: Vec::new() })
    );
    let runner = Runner::try_from(command(Some(&["bench", "-n", "3"])), None, None).unwrap();
    assert_eq!(
        runner.run(&shell()),
        Execution::Spawn(Invocation { program: "bench".to_string(), arguments: words(&["-n", "3"]) })
    );
}

#[test]
fn the_steps_of_a_run_come_in_order() {
    let run = run();
    assert_eq!(run.step(Event::Started), Step::Do(Task::CheckVersion));
    assert_eq!(run.step(Event::Done(Task::CheckVersion)), Step::Do(Task::Generate));
    assert_eq!(run.step(Event::Done(Task::SafetyCheck)), Step::Do(Task::Generate));
    assert_eq!(run.step(Event::Done(Task::Generate)), Step::Do(Task::Present));
    assert_eq!(run.step(Event::NothingToReport), Step::Finish(Ok(())));
    assert_eq!(run.step(Event::Done(Task::Present)), Step::Do(Task::Send));
    assert_eq!(run.step(Event::Sent { alerts: 2 }), Step::Do(Task::Display));
    assert_eq!(run.step(Event::Done(Task::Send)), Step::Do(Task::Display));
    assert_eq!(run.step(Event::Displayed { alerts: 0 }), Step::Finish(Ok(())));
    assert_eq!(run.step(Event::Done(Task::Display)), Step::Finish(Ok(())));
    let mut given = options();
    given.ci.github_actions = Some("token".to_string());
    let posting = Run::try_from(given, None, None).unwrap();
    assert_eq!(posting.step(Event::Done(Task::CheckVersion)), Step::Do(Task::SafetyCheck));
}

#[test]
fn a_dry_run_hands_nothing_in() {
    let mut given = options();
    given.dry_run = true;
    let run = Run::try_from(given, None, None).unwrap();
    assert_eq!(run.step(Event::Done(Task::Generate)), Step::Do(Task::Present));
    assert_eq!(run.step(Event::Done(Task::Present)), Step::Finish(Ok(())));
}

#[test]
fn alerts_fail_the_run_only_where_they_are_to() {
    let run = run();
    assert_eq!(run.step(Event::Displayed { alerts: 3 }), Step::Finish(Err(RunError::Alerts(3))));
    assert_eq!(run.step(Event::Displayed { alerts: 0 }), Step::Finish(Ok(())));
    let mut given = options();
    given.err = false;
    let lenient = Run::try_from(given, None, None).unwrap();
    assert_eq!(lenient.step(Event::Displayed { alerts: 3 }), Step::Finish(Ok(())));
}

#[test]
fn a_run_collects_with_its_own_settings() {
    let run = run();
    let mut collector = run.collector();
    let mut made = 0;
    while collector.next() == Next::Run {
        made += 1;
        collector = collector.record(RunOutput { success: false, text: Vec::new() }).unwrap();
    }
    assert_eq!(made, 3);
    assert!(collector.finish().is_empty());
}

#[test]
fn a_run_reports_for_its_branch_with_its_backdate() {
    let defaults = Defaults { branch: "main".to_string(), testbed: "localhost".to_string() };
    let run = run();
    let report = run.report(&defaults, 5_000, 5_060, Vec::new()).unwrap();
    assert_eq!(report.branch, "feature");
    assert_eq!(report.testbed, "localhost");
    assert_eq!((report.window.start_time(), report.window.end_time()), (1_000, 1_060));
    assert_eq!(
        report.settings,
        Settings {
            adapter: Adapter::RustBench,
            average: Some(Average::Median),
            fold: Some(FoldOp::Max)
        }
    );
    assert_eq!(
        run.report(&defaults, 5_060, 5_000, Vec::new()),
        Err(RunError::Window(WindowError::EndsBeforeStart))
    );
    let mut given = options();
    given.backdate = None;
    given.branch.branch = None;
    given.testbed = Some("bed".to_string());
    let plain = Run::try_from(given, None, None).unwrap();
    let report = plain.report(&defaults, 5_000, 5_060, Vec::new()).unwrap();
    assert_eq!(report.branch, "main");
    assert_eq!(report.testbed, "bed");
    assert_eq!((report.window.start_time(), report.window.end_time()), (5_000, 5_060));
}

#[test]
fn a_run_collects_outputs_at_hand() {
    let good = |value: u32| RunOutput {
        success: true,
        text: format!("test a ... bench: {} ns/iter (+/- 1)\n", value).into_bytes(),
    };
    let bad = RunOutput { success: false, text: b"boom".to_vec() };
    let run = run();
    let results = run.collect(vec![good(1), bad.clone(), good(3), good(4)]).unwrap();
    assert_eq!(results.len(), 2);
    let mut given = options();
    given.allow_failure = false;
    let strict = Run::try_from(given, None, None).unwrap();
    assert_eq!(
        strict.collect(vec![good(1), bad.clone(), good(3)]),
        Err(RunError::Collect(CollectError::ExitStatus { iteration: 2, output: bad }))
    );
}
