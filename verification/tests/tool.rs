use collector::tool::{Bencher, PerfTool, Profile, Profiler, Scenario};

#[test]
fn bench_tools_run_under_rustc_or_rustdoc() {
    let tool = PerfTool::BenchTool(Bencher::PerfStat);
    assert_eq!(tool.cargo_subcommand(Profile::Check), Some("rustc"));
    assert_eq!(tool.cargo_subcommand(Profile::Debug), Some("rustc"));
    assert_eq!(tool.cargo_subcommand(Profile::Opt), Some("rustc"));
    assert_eq!(tool.cargo_subcommand(Profile::Doc), Some("rustdoc"));
}

#[test]
fn line_counter_needs_generated_code() {
    let tool = PerfTool::ProfileTool(Profiler::LlvmLines);
    assert_eq!(tool.cargo_subcommand(Profile::Debug), Some("llvm-lines"));
    assert_eq!(tool.cargo_subcommand(Profile::Opt), Some("llvm-lines"));
    assert_eq!(tool.cargo_subcommand(Profile::Check), None);
    assert_eq!(tool.cargo_subcommand(Profile::Doc), None);
    assert!(tool.is_scenario_allowed(Scenario::Full));
    assert!(!tool.is_scenario_allowed(Scenario::IncrFull));
}

#[test]
fn dependency_graph_is_incremental_only() {
    let tool = PerfTool::ProfileTool(Profiler::DepGraph);
    assert!(!tool.is_scenario_allowed(Scenario::Full));
    assert!(tool.is_scenario_allowed(Scenario::IncrFull));
    assert!(tool.is_scenario_allowed(Scenario::IncrUnchanged));
    assert!(tool.is_scenario_allowed(Scenario::IncrPatched));
}

#[test]
fn tool_names_are_variant_names() {
    assert_eq!(PerfTool::BenchTool(Bencher::PerfStatSelfProfile).name(), "PerfStatSelfProfile");
    assert_eq!(PerfTool::BenchTool(Bencher::XperfStat).name(), "XperfStat");
    assert_eq!(PerfTool::ProfileTool(Profiler::Cachegrind).name(), "Cachegrind");
    assert_eq!(PerfTool::ProfileTool(Profiler::LlvmIr).name(), "LlvmIr");
}
