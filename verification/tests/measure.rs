use collector::benchmark::{Benchmark, BenchmarkConfig, Category};
use collector::measure::{
    scenario_plan, MeasureAction, MeasureError, MeasureEvent, MeasurePhase, Measurement, PlanStep,
};
use collector::patch::Patch;
use collector::processor::{Output, ProcessError, ProcessOutputData, Processor, Retry};
use collector::tool::{PerfTool, Profile, Profiler, Scenario};

fn benchmark(disabled: bool, runs: usize, patches: &[&str]) -> Benchmark {
    let config = BenchmarkConfig {
        cargo_opts: None,
        cargo_rustc_opts: None,
        cargo_toml: None,
        disabled,
        runs,
        touch_file: None,
        category: Category("primary".to_string()),
    };
    let files: Vec<String> = patches.iter().map(|s| s.to_string()).collect();
    Benchmark::new("helloworld".to_string(), "/b".to_string(), &files, Some(config)).ok().unwrap()
}

fn all_scenarios() -> Vec<Scenario> {
    vec![Scenario::Full, Scenario::IncrFull, Scenario::IncrUnchanged, Scenario::IncrPatched]
}

/// What a measurement asked for, in a line each.
fn trace(m: &mut Measurement, tool_changes: bool) -> Vec<String> {
    let mut out = Vec::new();
    let mut event = MeasureEvent::Start;
    loop {
        let action = m.advance(event);
        event = MeasureEvent::Completed;
        match action {
            MeasureAction::Prepare(profiles) => out.push(format!("prepare {:?}", profiles)),
            MeasureAction::StartFirstCollection => out.push("start".to_string()),
            MeasureAction::FinishFirstCollection => {
                out.push("finish".to_string());
                event = MeasureEvent::FirstCollection(tool_changes);
            }
            MeasureAction::BeginIteration { profile, iteration } => {
                out.push(format!("begin {:?} {}", profile, iteration))
            }
            MeasureAction::Step { step: PlanStep::ApplyPatch(p), .. } => {
                out.push(format!("apply {}", p.path()))
            }
            MeasureAction::Step { step: PlanStep::Run { scenario_str, incremental, .. }, .. } => {
                out.push(format!("run {} {}", scenario_str, incremental))
            }
            MeasureAction::EndIteration => out.push("end".to_string()),
            MeasureAction::Done => {
                out.push("done".to_string());
                return out;
            }
            MeasureAction::Fail(e) => {
                out.push(format!("fail {:?}", e));
                return out;
            }
            MeasureAction::Abandon { keep_working_copy } => {
                out.push(format!("abandon, keep {}", keep_working_copy));
                return out;
            }
        }
    }
}

fn count(trace: &[String], prefix: &str) -> usize {
    trace.iter().filter(|l| l.starts_with(prefix)).count()
}

#[test]
fn disabled_benchmark_is_not_measured() {
    let bench = benchmark(true, 3, &[]);
    for profiles in [vec![Profile::Check], vec![Profile::Debug, Profile::Opt, Profile::Doc]] {
        for scenarios in [vec![Scenario::Full], all_scenarios()] {
            let refused = bench.measure(&profiles, &scenarios, None).err();
            assert_eq!(refused, Some(MeasureError::Disabled));
        }
    }
    assert_eq!(MeasureError::Disabled.message(), "disabled benchmark");
}

#[test]
fn no_profile_means_no_measurement() {
    let bench = benchmark(false, 3, &[]);
    assert_eq!(bench.measure(&vec![], &all_scenarios(), None).err(), Some(MeasureError::Disabled));
}

#[test]
fn one_iteration_is_enough_where_the_tool_stays() {
    let bench = benchmark(false, 3, &[]);
    let mut m = bench.measure(&vec![Profile::Check], &vec![Scenario::Full], Some(1)).ok().unwrap();
    let t = trace(&mut m, false);
    assert_eq!(
        t,
        vec!["prepare [Check]", "start", "begin Check 0", "run Full false", "end", "finish", "done"]
    );
    assert_eq!(m.phase(), MeasurePhase::Done);
}

#[test]
fn a_changed_tool_gets_a_second_iteration() {
    let bench = benchmark(false, 3, &[]);
    let mut m = bench.measure(&vec![Profile::Check], &vec![Scenario::Full], Some(1)).ok().unwrap();
    let t = trace(&mut m, true);
    assert_eq!(
        t,
        vec![
            "prepare [Check]", "start", "begin Check 0", "run Full false", "end", "finish",
            "begin Check 1", "run Full false", "end", "done",
        ]
    );
}

#[test]
fn there_are_at_least_two_iterations_otherwise() {
    for (asked, made) in [(0usize, 2usize), (2, 2), (3, 3), (5, 5)] {
        for changes in [false, true] {
            let bench = benchmark(false, 3, &[]);
            let mut m = bench.measure(&vec![Profile::Opt], &vec![Scenario::Full], Some(asked)).ok().unwrap();
            let t = trace(&mut m, changes);
            assert_eq!(count(&t, "begin"), made, "asked for {}", asked);
            assert_eq!(count(&t, "finish"), 1);
            assert_eq!(count(&t, "start"), 1);
        }
    }
}

#[test]
fn the_options_give_the_iterations_unless_overridden() {
    let bench = benchmark(false, 4, &[]);
    let mut m = bench.measure(&vec![Profile::Opt], &vec![Scenario::Full], None).ok().unwrap();
    assert_eq!(count(&trace(&mut m, false), "begin"), 4);
}

#[test]
fn documentation_is_never_built_incrementally() {
    let bench = benchmark(false, 1, &["0-a.patch", "1-b.patch"]);
    let mut m = bench.measure(&vec![Profile::Doc], &all_scenarios(), Some(1)).ok().unwrap();
    let t = trace(&mut m, false);
    assert_eq!(t, vec!["prepare [Doc]", "start", "begin Doc 0", "run Full false", "end", "finish", "done"]);
    let incremental_only = vec![Scenario::IncrFull, Scenario::IncrUnchanged, Scenario::IncrPatched];
    let plan = scenario_plan(Profile::Doc, &incremental_only, &bench.patches);
    assert!(plan.is_empty());
}

#[test]
fn scenarios_run_in_their_fixed_order() {
    let bench = benchmark(false, 1, &["1-second.patch", "0-first.patch"]);
    let requested = vec![Scenario::IncrPatched, Scenario::IncrUnchanged, Scenario::Full, Scenario::IncrFull];
    let mut m = bench.measure(&vec![Profile::Debug], &requested, Some(1)).ok().unwrap();
    let t = trace(&mut m, false);
    assert_eq!(
        t,
        vec![
            "prepare [Debug]", "start", "begin Debug 0", "run Full false", "run IncrFull true",
            "run IncrUnchanged true", "apply 0-first.patch", "run IncrPatched0 true",
            "apply 1-second.patch", "run IncrPatched1 true", "end", "finish", "done",
        ]
    );
}

#[test]
fn any_incremental_scenario_brings_the_build_from_scratch() {
    let bench = benchmark(false, 1, &["0-a.patch"]);
    let plan = scenario_plan(Profile::Check, &vec![Scenario::IncrUnchanged], &bench.patches);
    let labels: Vec<String> = plan
        .iter()
        .map(|s| match s {
            PlanStep::Run { scenario_str, .. } => scenario_str.clone(),
            PlanStep::ApplyPatch(p) => format!("apply {}", p.path()),
        })
        .collect();
    assert_eq!(labels, vec!["IncrFull", "IncrUnchanged"]);
    let plan = scenario_plan(Profile::Check, &vec![Scenario::IncrPatched], &bench.patches);
    assert_eq!(plan.len(), 3);
    assert_eq!(
        plan[2],
        PlanStep::Run {
            scenario: Scenario::IncrPatched,
            scenario_str: "IncrPatched0".to_string(),
            incremental: true,
            patch: Some(Patch::new("0-a.patch".to_string()).unwrap()),
        }
    );
    assert!(scenario_plan(Profile::Check, &vec![Scenario::All], &bench.patches).is_empty());
    assert!(scenario_plan(Profile::Check, &vec![], &bench.patches).is_empty());
}

#[test]
fn patch_labels_count_in_decimal() {
    let files: Vec<String> = (0..12).map(|i| format!("{}-p{}.patch", i, i)).collect();
    let names: Vec<&str> = files.iter().map(|s| s.as_str()).collect();
    let bench = benchmark(false, 1, &names);
    let plan = scenario_plan(Profile::Opt, &vec![Scenario::IncrPatched], &bench.patches);
    assert_eq!(plan.len(), 25);
    match &plan[24] {
        PlanStep::Run { scenario_str, patch, .. } => {
            assert_eq!(scenario_str, "IncrPatched11");
            assert_eq!(patch.as_ref().unwrap().index(), 11);
        }
        other => panic!("unexpected {:?}", other),
    }
}

#[test]
fn profiles_are_measured_one_after_the_other() {
    let bench = benchmark(false, 2, &[]);
    let profiles = vec![Profile::Check, Profile::Doc, Profile::Opt];
    let mut m = bench.measure(&profiles, &vec![Scenario::Full, Scenario::IncrFull], None).ok().unwrap();
    let t = trace(&mut m, true);
    assert_eq!(
        t,
        vec![
            "prepare [Check, Doc, Opt]",
            "start", "begin Check 0", "run Full false", "run IncrFull true", "end", "finish",
            "begin Check 1", "run Full false", "run IncrFull true", "end",
            "start", "begin Doc 0", "run Full false", "end", "finish",
            "begin Doc 1", "run Full false", "end",
            "start", "begin Opt 0", "run Full false", "run IncrFull true", "end", "finish",
            "begin Opt 1", "run Full false", "run IncrFull true", "end",
            "done",
        ]
    );
}

#[test]
fn reports_out_of_turn_end_the_measurement() {
    let bench = benchmark(false, 2, &[]);
    let mut m = bench.measure(&vec![Profile::Check], &vec![Scenario::Full], None).ok().unwrap();
    assert_eq!(m.phase(), MeasurePhase::Idle);
    assert_eq!(m.profile(), 0);
    assert_eq!(m.advance(MeasureEvent::Completed), MeasureAction::Fail(MeasureError::UnexpectedEvent));
    assert_eq!(m.phase(), MeasurePhase::Failed);
    assert_eq!(m.advance(MeasureEvent::Start), MeasureAction::Fail(MeasureError::UnexpectedEvent));
    let mut m = bench.measure(&vec![Profile::Check], &vec![Scenario::Full], None).ok().unwrap();
    assert_eq!(m.advance(MeasureEvent::Start), MeasureAction::Prepare(vec![Profile::Check]));
    assert_eq!(m.advance(MeasureEvent::FirstCollection(true)), MeasureAction::Fail(MeasureError::UnexpectedEvent));
}

/// A processor that counts how often its hooks are called. Where it
/// `changes`, it uses one tool during its first collection and another
/// afterwards.
struct Counting {
    started: usize,
    finished: usize,
    changes: bool,
    first: bool,
}

impl Processor for Counting {
    fn spec_perf_tool(&self) -> PerfTool {
        if self.first && self.changes {
            PerfTool::ProfileTool(Profiler::SelfProfile)
        } else {
            PerfTool::ProfileTool(Profiler::Eprintln)
        }
    }

    fn perf_tool(&self) -> PerfTool {
        self.spec_perf_tool()
    }

    fn process_output(&mut self, _data: &ProcessOutputData, _output: Output) -> Result<Retry, ProcessError> {
        Ok(Retry::No)
    }

    fn start_first_collection(&mut self) {
        self.started += 1;
        self.first = true;
    }

    fn finished_first_collection(&mut self) -> bool {
        let before = self.perf_tool();
        self.finished += 1;
        self.first = false;
        self.perf_tool() != before
    }
}

fn driven(m: &mut Measurement, processor: &mut Counting) -> Vec<String> {
    let mut out = Vec::new();
    let mut event = MeasureEvent::Start;
    loop {
        let action = m.advance_with(processor, event);
        event = MeasureEvent::Completed;
        match action {
            MeasureAction::Prepare(_) => out.push("prepare".to_string()),
            MeasureAction::StartFirstCollection => assert_eq!(m.phase(), MeasurePhase::StartingProfile),
            MeasureAction::FinishFirstCollection => assert_eq!(m.phase(), MeasurePhase::AskingTool),
            MeasureAction::BeginIteration { profile, iteration } => {
                out.push(format!("begin {:?} {} after {} starts", profile, iteration, processor.started))
            }
            MeasureAction::Step { .. } => out.push("step".to_string()),
            MeasureAction::EndIteration => out.push("end".to_string()),
            MeasureAction::Done => return out,
            other => panic!("unexpected {:?}", other),
        }
    }
}

#[test]
fn the_measurement_deals_with_the_processor() {
    let bench = benchmark(false, 3, &[]);
    let profiles = vec![Profile::Check, Profile::Opt];
    let mut m = bench.measure(&profiles, &vec![Scenario::Full], Some(1)).ok().unwrap();
    let mut processor = Counting { started: 0, finished: 0, changes: false, first: false };
    let t = driven(&mut m, &mut processor);
    assert_eq!(
        t,
        vec![
            "prepare", "begin Check 0 after 1 starts", "step", "end",
            "begin Opt 0 after 2 starts", "step", "end",
        ]
    );
    assert_eq!(processor.started, 2);
    assert_eq!(processor.finished, 2);

    let mut m = bench.measure(&profiles, &vec![Scenario::Full], Some(1)).ok().unwrap();
    let mut processor = Counting { started: 0, finished: 0, changes: true, first: false };
    let t = driven(&mut m, &mut processor);
    assert_eq!(t.iter().filter(|l| l.starts_with("begin")).count(), 4);
    assert_eq!(processor.started, 2);
    assert_eq!(processor.finished, 2);
}

#[test]
fn the_processor_is_called_at_most_once_in_a_step() {
    let bench = benchmark(false, 3, &[]);
    let profiles = vec![Profile::Check, Profile::Opt];
    let mut m = bench.measure(&profiles, &vec![Scenario::Full], Some(1)).ok().unwrap();
    let mut processor = Counting { started: 0, finished: 0, changes: false, first: false };
    let mut event = MeasureEvent::Start;
    loop {
        let calls = processor.started + processor.finished;
        let action = m.advance_with(&mut processor, event);
        assert!(processor.started + processor.finished <= calls + 1);
        event = MeasureEvent::Completed;
        if action == MeasureAction::Done {
            break;
        }
    }
    assert_eq!(processor.started, 2);
    assert_eq!(processor.finished, 2);
}

/// Drives a measurement until the step of the given number, counted from 0
/// over all steps, and reports that it failed.
fn fail_at(m: &mut Measurement, failing: usize) -> Vec<String> {
    let mut out = Vec::new();
    let mut steps = 0;
    let mut event = MeasureEvent::Start;
    loop {
        let action = m.advance(event);
        event = match &action {
            MeasureAction::FinishFirstCollection => MeasureEvent::FirstCollection(false),
            MeasureAction::Step { .. } => {
                steps += 1;
                if steps > failing {
                    MeasureEvent::Failed
                } else {
                    MeasureEvent::Completed
                }
            }
            _ => MeasureEvent::Completed,
        };
        match action {
            MeasureAction::Step { step: PlanStep::Run { scenario_str, .. }, .. } => {
                out.push(format!("run {}", scenario_str))
            }
            MeasureAction::Step { step: PlanStep::ApplyPatch(p), .. } => {
                out.push(format!("apply {}", p.path()))
            }
            MeasureAction::BeginIteration { iteration, .. } => out.push(format!("begin {}", iteration)),
            MeasureAction::EndIteration => out.push("end".to_string()),
            MeasureAction::Abandon { keep_working_copy } => {
                out.push(format!("abandon, keep {}", keep_working_copy));
                return out;
            }
            MeasureAction::Done => {
                out.push("done".to_string());
                return out;
            }
            _ => {}
        }
    }
}

#[test]
fn a_failed_step_ends_the_measurement_and_keeps_its_working_copy() {
    let bench = benchmark(false, 2, &["0-a.patch"]);
    let profiles = vec![Profile::Debug, Profile::Opt];
    let mut m = bench.measure(&profiles, &all_scenarios(), None).ok().unwrap();
    let t = fail_at(&mut m, 6);
    assert_eq!(
        t,
        vec![
            "begin 0", "run Full", "run IncrFull", "run IncrUnchanged", "apply 0-a.patch",
            "run IncrPatched0", "end", "begin 1", "run Full", "run IncrFull", "abandon, keep true",
        ]
    );
    assert_eq!(m.phase(), MeasurePhase::Failed);
    assert_eq!(m.advance(MeasureEvent::Completed), MeasureAction::Fail(MeasureError::UnexpectedEvent));
    assert_eq!(m.advance(MeasureEvent::Failed), MeasureAction::Abandon { keep_working_copy: false });
    assert_eq!(m.phase(), MeasurePhase::Failed);
}

#[test]
fn a_failure_outside_a_step_keeps_no_working_copy() {
    let bench = benchmark(false, 2, &[]);
    let mut m = bench.measure(&vec![Profile::Check], &vec![Scenario::Full], None).ok().unwrap();
    assert_eq!(m.advance(MeasureEvent::Start), MeasureAction::Prepare(vec![Profile::Check]));
    assert_eq!(m.advance(MeasureEvent::Failed), MeasureAction::Abandon { keep_working_copy: false });
    let mut m = bench.measure(&vec![Profile::Check], &vec![Scenario::Full], None).ok().unwrap();
    m.advance(MeasureEvent::Start);
    m.advance(MeasureEvent::Completed);
    assert!(matches!(m.advance(MeasureEvent::Completed), MeasureAction::BeginIteration { .. }));
    assert_eq!(m.advance(MeasureEvent::Failed), MeasureAction::Abandon { keep_working_copy: false });
    let mut processor = Counting { started: 0, finished: 0, changes: false, first: false };
    let mut m = bench.measure(&vec![Profile::Check], &vec![Scenario::Full], None).ok().unwrap();
    m.advance_with(&mut processor, MeasureEvent::Start);
    assert_eq!(
        m.advance_with(&mut processor, MeasureEvent::Failed),
        MeasureAction::Abandon { keep_working_copy: false }
    );
    assert_eq!(processor.started + processor.finished, 0);
}
