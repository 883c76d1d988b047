use collector::bench_processor::{ArtifactIdNumber, BenchProcessor, FatalError, ProcessOutcome};
use collector::benchmark::{Benchmark, BenchmarkConfig, BenchmarkName, Category};
use collector::cargo_process::{
    package_id, CargoProcess, CommandSpec, Compiler, InvokeError, Phase, RunAction, RunError,
    RunEvent, RunReport, RunRequest, RunRustc, Shims, Surroundings, TouchTarget,
};
use collector::patch::Patch;
use collector::processor::{Output, ProcessError, ProcessOutputData, Processor, Retry};
use collector::stat_output::{process_stat_output, Platform, StatSources};
use collector::tool::{Bencher, PerfTool, Profile, Profiler, Scenario};

fn compiler() -> Compiler {
    Compiler {
        rustc: "/tc/bin/rustc".to_string(),
        rustdoc: Some("/tc/bin/rustdoc".to_string()),
        cargo: "/tc/bin/cargo".to_string(),
        triple: "x86_64-unknown-linux-gnu".to_string(),
        is_nightly: true,
    }
}

fn surroundings() -> Surroundings {
    Surroundings {
        shims: Shims { rustc: "/c/rustc-fake".to_string(), rustdoc: "/c/rustdoc-fake".to_string() },
        record_timing: false,
        incremental_dir: "/work/incremental-state".to_string(),
    }
}

fn benchmark(config: BenchmarkConfig) -> Benchmark {
    Benchmark::new("helloworld".to_string(), "/b".to_string(), &vec![], Some(config)).ok().unwrap()
}

fn config() -> BenchmarkConfig {
    BenchmarkConfig {
        cargo_opts: None,
        cargo_rustc_opts: None,
        cargo_toml: None,
        disabled: false,
        runs: 3,
        touch_file: None,
        category: Category("primary".to_string()),
    }
}

fn process(profile: Profile) -> CargoProcess {
    benchmark(config()).mk_cargo_process(compiler(), "/work", profile, None)
}

fn strs(list: &[&str]) -> Vec<String> {
    list.iter().map(|s| s.to_string()).collect()
}

fn pairs(list: &[(&str, &str)]) -> Vec<(String, String)> {
    list.iter().map(|(a, b)| (a.to_string(), b.to_string())).collect()
}

#[test]
fn process_of_a_benchmark_takes_its_options() {
    let mut cfg = config();
    cfg.cargo_opts = Some("  --features  foo\t--locked ".to_string());
    cfg.cargo_rustc_opts = Some("-Zverbose".to_string());
    cfg.cargo_toml = Some("sub/Cargo.toml".to_string());
    cfg.touch_file = Some("src/lib.rs".to_string());
    let p = benchmark(cfg).mk_cargo_process(compiler(), "/work", Profile::Opt, Some("+08"));
    assert_eq!(p.cargo_args, strs(&["--features", "foo", "--locked", "-j8"]));
    assert_eq!(p.rustc_args, strs(&["-Zverbose"]));
    assert_eq!(p.manifest_path, "sub/Cargo.toml");
    assert_eq!(p.touch_file, Some("src/lib.rs".to_string()));
    assert_eq!(p.cwd, "/work");
    assert_eq!(p.profile, Profile::Opt);
    assert!(!p.incremental);
    assert!(p.processor_etc.is_none());
    assert!(p.jobserver.is_none());
    assert_eq!(p.processor_name, BenchmarkName("helloworld".to_string()));
    assert_eq!(p.compiler, compiler());
}

#[test]
fn thread_count_that_is_no_number_is_ignored() {
    for count in ["", "many", "-1", "4294967296", "1 "] {
        let p = benchmark(config()).mk_cargo_process(compiler(), "/work", Profile::Check, Some(count));
        assert!(p.cargo_args.is_empty(), "thread count {:?}", count);
        assert_eq!(p.manifest_path, "Cargo.toml");
    }
    let p = benchmark(config()).mk_cargo_process(compiler(), "/work", Profile::Check, Some("4294967295"));
    assert_eq!(p.cargo_args, strs(&["-j4294967295"]));
}

#[test]
fn base_command_sets_the_shims() {
    let p = process(Profile::Debug);
    let cmd = p.base_command("/elsewhere", "clean", &surroundings().shims);
    assert_eq!(
        cmd,
        CommandSpec {
            program: "/tc/bin/cargo".to_string(),
            cwd: "/elsewhere".to_string(),
            args: strs(&["clean", "--manifest-path", "Cargo.toml"]),
            envs: pairs(&[
                ("RUSTC", "/c/rustc-fake"),
                ("RUSTC_REAL", "/tc/bin/rustc"),
                ("CARGO_INCREMENTAL", "0"),
                ("RUSTC_BOOTSTRAP", "1"),
                ("RUSTDOC", "/c/rustdoc-fake"),
                ("RUSTDOC_REAL", "/tc/bin/rustdoc"),
            ]),
        }
    );
    let mut c = compiler();
    c.rustdoc = None;
    let p = benchmark(config()).mk_cargo_process(c, "/work", Profile::Debug, None);
    let cmd = p.get_pkgid("/work", &surroundings().shims);
    assert_eq!(cmd.args, strs(&["pkgid", "--manifest-path", "Cargo.toml"]));
    assert_eq!(cmd.envs.len(), 4);
}

#[test]
fn invocation_for_a_measured_release_build() {
    let mut cfg = config();
    cfg.cargo_opts = Some("--locked".to_string());
    cfg.cargo_rustc_opts = Some("-Zverbose -Cdebuginfo=1".to_string());
    let p = benchmark(cfg)
        .mk_cargo_process(compiler(), "/work", Profile::Opt, None)
        .incremental(true);
    let mut sur = surroundings();
    sur.record_timing = true;
    let cmd = p.invocation("rustc", "hello 0.1.0", Some("PerfStat"), &sur);
    assert_eq!(
        cmd.args,
        strs(&[
            "rustc", "--manifest-path", "Cargo.toml", "-p", "hello 0.1.0", "--release",
            "--locked", "-Zunstable-options", "-Ztimings", "--", "--wrap-rustc-with", "PerfStat",
            "-Zverbose", "-Cdebuginfo=1", "-C", "incremental=/work/incremental-state",
        ])
    );
    assert_eq!(cmd.envs.last(), Some(&("EXPECT_ONLY_WRAPPED_RUSTC".to_string(), "1".to_string())));
    assert_eq!(cmd.envs.len(), 7);
    assert_eq!(cmd.program, "/tc/bin/cargo");
    assert_eq!(cmd.cwd, "/work");
}

#[test]
fn invocation_that_skips_the_last_compilation() {
    let mut cfg = config();
    cfg.cargo_rustc_opts = Some("-Zverbose".to_string());
    let p = benchmark(cfg).mk_cargo_process(compiler(), "/work", Profile::Check, None);
    let cmd = p.invocation("rustc", "id", None, &surroundings());
    assert_eq!(
        cmd.args,
        strs(&["rustc", "--manifest-path", "Cargo.toml", "-p", "id", "--profile", "check", "--", "--skip-this-rustc"])
    );
    assert_eq!(cmd.envs.len(), 6);
    let cmd = process(Profile::Doc).invocation("rustdoc", "id", None, &surroundings());
    assert_eq!(cmd.args, strs(&["rustdoc", "--manifest-path", "Cargo.toml", "-p", "id", "--", "--skip-this-rustc"]));
}

#[test]
fn subcommand_follows_tool_and_profile() {
    let plain = process(Profile::Doc);
    assert_eq!(plain.subcommand(None, false), Ok("rustdoc"));
    assert_eq!(process(Profile::Debug).subcommand(None, false), Ok("rustc"));
    assert_eq!(process(Profile::Debug).subcommand(None, true), Err(InvokeError::MissingProcessor));
    assert_eq!(process(Profile::All).subcommand(None, false), Err(InvokeError::UnresolvedProfile));
    let lines = Some(PerfTool::ProfileTool(Profiler::LlvmLines));
    let attached = process(Profile::Opt).processor(Scenario::Full, "Full", None);
    assert_eq!(attached.subcommand(lines, true), Ok("llvm-lines"));
    assert_eq!(attached.subcommand(None, true), Err(InvokeError::MissingProcessor));
    let attached = process(Profile::Check).processor(Scenario::Full, "Full", None);
    assert_eq!(attached.subcommand(lines, true), Err(InvokeError::UnsupportedProfile(Profile::Check)));
    let attached = process(Profile::Opt).processor(Scenario::IncrFull, "IncrFull", None);
    assert_eq!(attached.subcommand(lines, true), Err(InvokeError::UnsupportedScenario(Scenario::IncrFull)));
    assert_eq!(
        InvokeError::UnsupportedScenario(Scenario::IncrFull).message(),
        "this perf tool doesn't support IncrFull scenarios"
    );
    assert_eq!(
        InvokeError::UnsupportedProfile(Profile::Check).message(),
        "this perf tool doesn't support the Check profile"
    );
}

#[test]
fn touch_target_is_the_named_file_or_the_manifest_directory() {
    assert_eq!(process(Profile::Debug).touch_target(), TouchTarget::ManifestDir("Cargo.toml".to_string()));
    let mut cfg = config();
    cfg.touch_file = Some("src/main.rs".to_string());
    let p = benchmark(cfg).mk_cargo_process(compiler(), "/work", Profile::Debug, None);
    assert_eq!(p.touch_target(), TouchTarget::File("src/main.rs".to_string()));
}

#[test]
fn package_id_is_the_trimmed_output() {
    assert_eq!(package_id(" file:///b#hello@0.1.0\n"), "file:///b#hello@0.1.0");
    assert_eq!(package_id("\n"), "");
}

#[test]
fn unattached_invocation_runs_once() {
    let mut run = RunRustc::new(process(Profile::Debug), false, surroundings());
    assert_eq!(run.phase, Phase::Ready);
    let query = run.advance(RunEvent::Begin(None));
    match query {
        RunAction::QueryPackageId(cmd) => assert_eq!(cmd.args[0], "pkgid"),
        other => panic!("unexpected {:?}", other),
    }
    match run.advance(RunEvent::PackageId("id\n".to_string())) {
        RunAction::Run { touch, command } => {
            assert_eq!(touch, None);
            assert_eq!(command.args, strs(&["rustc", "--manifest-path", "Cargo.toml", "-p", "id", "--", "--skip-this-rustc"]));
        }
        other => panic!("unexpected {:?}", other),
    }
    assert_eq!(run.advance(RunEvent::Exited), RunAction::Done);
    assert_eq!(run.phase, Phase::Done);
    assert_eq!(run.advance(RunEvent::Exited), RunAction::Fail(InvokeError::UnexpectedEvent));
    assert_eq!(run.phase, Phase::Failed);
}

#[test]
fn incapable_tool_fails_before_anything_runs() {
    let p = process(Profile::Debug).processor(Scenario::Full, "Full", None);
    let mut run = RunRustc::new(p, true, surroundings());
    let action = run.advance(RunEvent::Begin(Some(PerfTool::ProfileTool(Profiler::DepGraph))));
    assert_eq!(action, RunAction::Fail(InvokeError::UnsupportedScenario(Scenario::Full)));
    assert_eq!(run.phase, Phase::Failed);
    let action = run.advance(RunEvent::PackageId("id".to_string()));
    assert_eq!(action, RunAction::Fail(InvokeError::UnexpectedEvent));
}

#[test]
fn events_out_of_turn_fail_the_invocation() {
    let mut run = RunRustc::new(process(Profile::Debug), false, surroundings());
    assert_eq!(run.advance(RunEvent::Exited), RunAction::Fail(InvokeError::UnexpectedEvent));
    let mut run = RunRustc::new(process(Profile::Debug), false, surroundings());
    assert_eq!(run.advance(RunEvent::Verdict(Retry::Yes)), RunAction::Fail(InvokeError::UnexpectedEvent));
}

#[test]
fn measured_invocation_hands_its_output_to_the_processor() {
    let patch = Patch::new("0-println.patch".to_string()).unwrap();
    let p = process(Profile::Debug)
        .incremental(true)
        .processor(Scenario::IncrPatched, "IncrPatched0", Some(&patch));
    let mut run = RunRustc::new(p, true, surroundings());
    let tool = PerfTool::BenchTool(Bencher::PerfStatSelfProfile);
    assert!(matches!(run.advance(RunEvent::Begin(Some(tool))), RunAction::QueryPackageId(_)));
    match run.advance(RunEvent::PackageId("id".to_string())) {
        RunAction::Run { touch, command } => {
            assert_eq!(touch, Some(TouchTarget::ManifestDir("Cargo.toml".to_string())));
            assert_eq!(
                command.args,
                strs(&[
                    "rustc", "--manifest-path", "Cargo.toml", "-p", "id", "--",
                    "--wrap-rustc-with", "PerfStatSelfProfile", "-C",
                    "incremental=/work/incremental-state",
                ])
            );
        }
        other => panic!("unexpected {:?}", other),
    }
    match run.advance(RunEvent::Exited) {
        RunAction::Process(data) => {
            assert_eq!(
                data,
                ProcessOutputData {
                    name: BenchmarkName("helloworld".to_string()),
                    cwd: "/work".to_string(),
                    profile: Profile::Debug,
                    scenario: Scenario::IncrPatched,
                    scenario_str: "IncrPatched0".to_string(),
                    patch: Some(patch),
                }
            );
        }
        other => panic!("unexpected {:?}", other),
    }
    assert_eq!(run.advance(RunEvent::Verdict(Retry::Yes)), RunAction::Again);
    assert_eq!(run.phase, Phase::Ready);
    assert!(matches!(run.advance(RunEvent::Begin(Some(tool))), RunAction::QueryPackageId(_)));
    assert!(matches!(run.advance(RunEvent::PackageId("id".to_string())), RunAction::Run { .. }));
    assert!(matches!(run.advance(RunEvent::Exited), RunAction::Process(_)));
    assert_eq!(run.advance(RunEvent::Verdict(Retry::No)), RunAction::Done);
    assert_eq!(run.phase, Phase::Done);
}

/// A processor over the recording processor's decisions, fed by a tool that
/// never prints anything.
struct Silent {
    core: BenchProcessor,
    fatal: Option<FatalError>,
}

impl Processor for Silent {
    fn spec_perf_tool(&self) -> PerfTool {
        self.core.perf_tool()
    }

    fn perf_tool(&self) -> PerfTool {
        self.core.perf_tool()
    }

    fn process_output(&mut self, data: &ProcessOutputData, output: Output) -> Result<Retry, ProcessError> {
        let stdout = String::from_utf8(output.stdout).unwrap();
        let sources = StatSources { profiles: vec![], counters: vec![], artifacts: None };
        let parsed = process_stat_output(&stdout, Platform::Unix, sources);
        match self.core.process_output(data, parsed, None, false) {
            ProcessOutcome::Record(_) => Ok(Retry::No),
            ProcessOutcome::Retry => Ok(Retry::Yes),
            ProcessOutcome::Fatal(e) => {
                let message = e.message();
                self.fatal = Some(e);
                Err(ProcessError { message })
            }
        }
    }
}

fn run_to_the_end<P: Processor>(run: &mut RunRustc, processor: &mut P, stdout: &str) -> (usize, Result<(), String>) {
    let mut spawned = 0;
    let mut report = RunReport::Start;
    loop {
        match run.advance_with(processor, report) {
            RunRequest::QueryPackageId(_) => report = RunReport::PackageId("id".to_string()),
            RunRequest::Run { .. } => {
                spawned += 1;
                report = RunReport::Exited(Output {
                    success: true,
                    stdout: stdout.as_bytes().to_vec(),
                    stderr: vec![],
                });
            }
            RunRequest::Done => return (spawned, Ok(())),
            RunRequest::Fail(RunError::Invoke(e)) => return (spawned, Err(e.message())),
            RunRequest::Fail(RunError::Processor(e)) => return (spawned, Err(e.message)),
        }
    }
}

fn run_by_hand<P: Processor>(run: &mut RunRustc, processor: &mut P, stdout: &str) -> (usize, Result<(), String>) {
    let mut spawned = 0;
    let mut event = RunEvent::Begin(Some(processor.perf_tool()));
    loop {
        match run.advance(event) {
            RunAction::QueryPackageId(_) => event = RunEvent::PackageId("id".to_string()),
            RunAction::Run { .. } => {
                spawned += 1;
                event = RunEvent::Exited;
            }
            RunAction::Process(data) => {
                let output = Output { success: true, stdout: stdout.as_bytes().to_vec(), stderr: vec![] };
                match processor.process_output(&data, output) {
                    Ok(verdict) => event = RunEvent::Verdict(verdict),
                    Err(e) => return (spawned, Err(e.message)),
                }
            }
            RunAction::Again => event = RunEvent::Begin(Some(processor.perf_tool())),
            RunAction::Done => return (spawned, Ok(())),
            RunAction::Fail(e) => return (spawned, Err(e.message())),
        }
    }
}

#[test]
fn driving_by_hand_runs_the_silent_tool_six_times_too() {
    let core = BenchProcessor::new(BenchmarkName("helloworld".to_string()), ArtifactIdNumber(1), Platform::Unix, true);
    let mut processor = Silent { core, fatal: None };
    let p = process(Profile::Debug).processor(Scenario::Full, "Full", None);
    let mut run = RunRustc::new(p, true, surroundings());
    let (spawned, result) = run_by_hand(&mut run, &mut processor, "nothing of note\n");
    assert_eq!(spawned, 6);
    assert!(result.is_err());
}

#[test]
fn an_incapable_tool_fails_the_driven_invocation_at_the_start() {
    let mut plain = Plain;
    let p = process(Profile::Debug).processor(Scenario::Full, "Full", None);
    let mut run = RunRustc::new(p, true, surroundings());
    assert!(matches!(run.advance_with(&mut plain, RunReport::Start), RunRequest::QueryPackageId(_)));
    let p = process(Profile::All).processor(Scenario::Full, "Full", None);
    let mut run = RunRustc::new(p, true, surroundings());
    assert_eq!(
        run.advance_with(&mut plain, RunReport::Start),
        RunRequest::Fail(RunError::Invoke(InvokeError::UnresolvedProfile))
    );
    let mut run = RunRustc::new(process(Profile::Debug), false, surroundings());
    let out = Output { success: true, stdout: vec![], stderr: vec![] };
    assert_eq!(
        run.advance_with(&mut plain, RunReport::Exited(out)),
        RunRequest::Fail(RunError::Invoke(InvokeError::UnexpectedEvent))
    );
}

#[test]
fn a_driven_invocation_without_a_measurement_asks_no_tool() {
    let mut plain = Plain;
    let mut run = RunRustc::new(process(Profile::Doc), false, surroundings());
    assert!(matches!(run.advance_with(&mut plain, RunReport::Start), RunRequest::QueryPackageId(_)));
    match run.advance_with(&mut plain, RunReport::PackageId("id".to_string())) {
        RunRequest::Run { touch, command } => {
            assert_eq!(touch, None);
            assert_eq!(command.args[0], "rustdoc");
        }
        other => panic!("unexpected {:?}", other),
    }
    let out = Output { success: true, stdout: vec![], stderr: vec![] };
    assert_eq!(run.advance_with(&mut plain, RunReport::Exited(out)), RunRequest::Done);
}

#[test]
fn silent_tool_is_run_six_times_before_giving_up() {
    let core = BenchProcessor::new(BenchmarkName("helloworld".to_string()), ArtifactIdNumber(1), Platform::Unix, false);
    let mut processor = Silent { core, fatal: None };
    let p = process(Profile::Debug).processor(Scenario::Full, "Full", None);
    let mut run = RunRustc::new(p, true, surroundings());
    let (spawned, result) = run_to_the_end(&mut run, &mut processor, "nothing of note\n");
    assert_eq!(spawned, 6);
    assert_eq!(result, Err("failed to collect statistics after 5 tries".to_string()));
    assert_eq!(processor.fatal, Some(FatalError::NoStatistics));
    assert_eq!(processor.core.tries, 5);
}

#[test]
fn the_tries_are_counted_over_all_invocations() {
    let core = BenchProcessor::new(BenchmarkName("helloworld".to_string()), ArtifactIdNumber(1), Platform::Unix, false);
    let mut processor = Silent { core, fatal: None };
    processor.core.tries = 3;
    let p = process(Profile::Debug).processor(Scenario::Full, "Full", None);
    let mut run = RunRustc::new(p, true, surroundings());
    let (spawned, result) = run_to_the_end(&mut run, &mut processor, "");
    assert_eq!(spawned, 3);
    assert!(result.is_err());
}

#[test]
fn output_with_statistics_is_accepted_at_once() {
    let core = BenchProcessor::new(BenchmarkName("helloworld".to_string()), ArtifactIdNumber(1), Platform::Unix, false);
    let mut processor = Silent { core, fatal: None };
    let p = process(Profile::Debug).processor(Scenario::Full, "Full", None);
    let mut run = RunRustc::new(p, true, surroundings());
    let (spawned, result) = run_to_the_end(&mut run, &mut processor, "!wall-time:1.5\n");
    assert_eq!(spawned, 1);
    assert_eq!(result, Ok(()));
    assert_eq!(processor.core.tries, 0);
}

#[test]
fn malformed_output_is_not_retried() {
    let core = BenchProcessor::new(BenchmarkName("helloworld".to_string()), ArtifactIdNumber(1), Platform::Unix, false);
    let mut processor = Silent { core, fatal: None };
    let p = process(Profile::Debug).processor(Scenario::Full, "Full", None);
    let mut run = RunRustc::new(p, true, surroundings());
    let (spawned, result) = run_to_the_end(&mut run, &mut processor, "100;msec;cycles;1.0;50.00%");
    assert_eq!(spawned, 1);
    assert_eq!(
        result,
        Err("process_perf_stat_output failed: measurement of `cycles` only active for 50.00%% of the time".to_string())
    );
}

/// A processor that keeps the default hooks.
struct Plain;

impl Processor for Plain {
    fn spec_perf_tool(&self) -> PerfTool {
        PerfTool::ProfileTool(Profiler::Eprintln)
    }

    fn perf_tool(&self) -> PerfTool {
        PerfTool::ProfileTool(Profiler::Eprintln)
    }

    fn process_output(&mut self, _data: &ProcessOutputData, _output: Output) -> Result<Retry, ProcessError> {
        Ok(Retry::No)
    }
}

#[test]
fn default_hooks_do_nothing() {
    let mut plain = Plain;
    plain.start_first_collection();
    assert!(!plain.finished_first_collection());
    assert_eq!(plain.perf_tool().name(), "Eprintln");
}

#[test]
fn a_job_token_pool_is_carried_along() {
    let client = jobserver::Client::new(2).unwrap();
    let p = process(Profile::Debug).jobserver(client).incremental(true);
    assert!(p.jobserver.is_some());
    assert!(p.incremental);
    assert_eq!(p.cwd, "/work");
}

/// A processor that fails on whatever it is handed.
struct Failing {
    handed: usize,
}

impl Processor for Failing {
    fn spec_perf_tool(&self) -> PerfTool {
        PerfTool::BenchTool(Bencher::PerfStat)
    }

    fn perf_tool(&self) -> PerfTool {
        PerfTool::BenchTool(Bencher::PerfStat)
    }

    fn process_output(&mut self, _data: &ProcessOutputData, _output: Output) -> Result<Retry, ProcessError> {
        self.handed += 1;
        Err(ProcessError { message: "no connection to the store".to_string() })
    }
}

#[test]
fn an_error_of_the_processor_ends_the_invocation_with_that_error() {
    let mut processor = Failing { handed: 0 };
    let p = process(Profile::Debug).processor(Scenario::Full, "Full", None);
    let mut run = RunRustc::new(p, true, surroundings());
    let (spawned, result) = run_to_the_end(&mut run, &mut processor, "!wall-time:1\n");
    assert_eq!(spawned, 1);
    assert_eq!(processor.handed, 1);
    assert_eq!(result, Err("no connection to the store".to_string()));
    assert_eq!(run.phase, Phase::Failed);
}

#[test]
fn settling_follows_the_answer_of_the_processor() {
    let attached = || {
        let p = process(Profile::Debug).processor(Scenario::Full, "Full", None);
        let mut run = RunRustc::new(p, true, surroundings());
        run.advance(RunEvent::Begin(Some(PerfTool::BenchTool(Bencher::PerfStat))));
        run.advance(RunEvent::PackageId("id".to_string()));
        assert!(matches!(run.advance(RunEvent::Exited), RunAction::Process(_)));
        run
    };
    let mut run = attached();
    let error = ProcessError { message: "broken".to_string() };
    assert_eq!(run.settle(Err(error.clone())), Some(RunRequest::Fail(RunError::Processor(error))));
    assert_eq!(run.phase, Phase::Failed);
    let mut run = attached();
    assert_eq!(run.settle(Ok(Retry::No)), Some(RunRequest::Done));
    assert_eq!(run.phase, Phase::Done);
    let mut run = attached();
    assert_eq!(run.settle(Ok(Retry::Yes)), None);
    assert_eq!(run.phase, Phase::Ready);
    let mut run = RunRustc::new(process(Profile::Debug), false, surroundings());
    assert_eq!(
        run.settle(Ok(Retry::No)),
        Some(RunRequest::Fail(RunError::Invoke(InvokeError::UnexpectedEvent)))
    );
}

#[test]
fn a_failed_command_ends_the_invocation() {
    let mut run = RunRustc::new(process(Profile::Debug), false, surroundings());
    assert!(matches!(run.advance(RunEvent::Begin(None)), RunAction::QueryPackageId(_)));
    assert_eq!(run.advance(RunEvent::Failed), RunAction::Fail(InvokeError::CommandFailed));
    assert_eq!(run.phase, Phase::Failed);
    assert_eq!(
        run.advance(RunEvent::PackageId("id".to_string())),
        RunAction::Fail(InvokeError::UnexpectedEvent)
    );
    let mut plain = Plain;
    let p = process(Profile::Debug).processor(Scenario::Full, "Full", None);
    let mut run = RunRustc::new(p, true, surroundings());
    run.advance_with(&mut plain, RunReport::Start);
    assert!(matches!(
        run.advance_with(&mut plain, RunReport::PackageId("id".to_string())),
        RunRequest::Run { .. }
    ));
    assert_eq!(
        run.advance_with(&mut plain, RunReport::Failed),
        RunRequest::Fail(RunError::Invoke(InvokeError::CommandFailed))
    );
    assert_eq!(InvokeError::CommandFailed.message(), "a command of the invocation failed");
}

/// A processor that measures with another tool after each output.
struct Switching {
    self_profile: bool,
}

impl Processor for Switching {
    fn spec_perf_tool(&self) -> PerfTool {
        self.perf_tool()
    }

    fn perf_tool(&self) -> PerfTool {
        if self.self_profile {
            PerfTool::ProfileTool(Profiler::SelfProfile)
        } else {
            PerfTool::ProfileTool(Profiler::LlvmLines)
        }
    }

    fn process_output(&mut self, _data: &ProcessOutputData, _output: Output) -> Result<Retry, ProcessError> {
        self.self_profile = !self.self_profile;
        Ok(Retry::Yes)
    }
}

#[test]
fn another_attempt_begins_with_the_tool_of_that_moment() {
    let mut processor = Switching { self_profile: true };
    let p = process(Profile::Opt).processor(Scenario::Full, "Full", None);
    let mut run = RunRustc::new(p, true, surroundings());
    assert!(matches!(run.advance_with(&mut processor, RunReport::Start), RunRequest::QueryPackageId(_)));
    match run.advance_with(&mut processor, RunReport::PackageId("id".to_string())) {
        RunRequest::Run { command, .. } => {
            assert_eq!(command.args[0], "rustc");
            assert!(command.args.contains(&"SelfProfile".to_string()));
        }
        other => panic!("unexpected {:?}", other),
    }
    let out = Output { success: true, stdout: vec![], stderr: vec![] };
    assert!(matches!(run.advance_with(&mut processor, RunReport::Exited(out)), RunRequest::QueryPackageId(_)));
    match run.advance_with(&mut processor, RunReport::PackageId("id".to_string())) {
        RunRequest::Run { command, .. } => {
            assert_eq!(command.args[0], "llvm-lines");
            assert!(command.args.contains(&"LlvmLines".to_string()));
        }
        other => panic!("unexpected {:?}", other),
    }
}
