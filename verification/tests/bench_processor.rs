use collector::bench_processor::{
    ArtifactIdNumber, BenchProcessor, FatalError, ProcessOutcome, StoreScenario, UploadRequest,
};
use collector::benchmark::BenchmarkName;
use collector::patch::{Patch, PatchName};
use collector::processor::ProcessOutputData;
use collector::stat_output::{DeserializeStatError, Platform, SelfProfileFiles};
use collector::stats::{ArtifactSize, QueryLabel, SelfProfile, StatValue, Stats};
use collector::tool::{Bencher, PerfTool, Profile, Scenario};

fn processor(platform: Platform, is_self_profile: bool) -> BenchProcessor {
    BenchProcessor::new(BenchmarkName("helloworld".to_string()), ArtifactIdNumber(7), platform, is_self_profile)
}

fn data(profile: Profile, scenario: Scenario, patch: Option<Patch>) -> ProcessOutputData {
    ProcessOutputData {
        name: BenchmarkName("helloworld".to_string()),
        cwd: "/work".to_string(),
        profile,
        scenario,
        scenario_str: "label".to_string(),
        patch,
    }
}

fn one_stat() -> Stats {
    let mut stats = Stats::new();
    stats.insert("cycles".to_string(), StatValue::Integer(5));
    stats
}

#[test]
fn the_first_collection_uses_self_instrumentation_where_wanted() {
    let p = processor(Platform::Unix, true);
    assert_eq!(p.perf_tool(), PerfTool::BenchTool(Bencher::PerfStatSelfProfile));
    let p = processor(Platform::Windows, true);
    assert_eq!(p.perf_tool(), PerfTool::BenchTool(Bencher::XperfStatSelfProfile));
    let p = processor(Platform::Unix, false);
    assert_eq!(p.perf_tool(), PerfTool::BenchTool(Bencher::PerfStat));
    let p = processor(Platform::Windows, false);
    assert_eq!(p.perf_tool(), PerfTool::BenchTool(Bencher::XperfStat));
}

#[test]
fn finishing_the_first_collection_changes_the_tool_once() {
    let mut p = processor(Platform::Unix, true);
    assert!(p.finished_first_collection());
    assert_eq!(p.perf_tool(), PerfTool::BenchTool(Bencher::PerfStat));
    assert!(!p.finished_first_collection());
    p.start_first_collection();
    assert_eq!(p.perf_tool(), PerfTool::BenchTool(Bencher::PerfStatSelfProfile));
    assert!(p.finished_first_collection());
    let mut q = processor(Platform::Unix, false);
    assert!(!q.finished_first_collection());
    assert_eq!(q.perf_tool(), PerfTool::BenchTool(Bencher::PerfStat));
}

#[test]
fn no_output_is_retried_five_times() {
    let mut p = processor(Platform::Unix, false);
    let d = data(Profile::Check, Scenario::Full, None);
    for tries in 1..=5u8 {
        let outcome = p.process_output(&d, Err(DeserializeStatError::NoOutput), None, false);
        assert!(matches!(outcome, ProcessOutcome::Retry));
        assert_eq!(p.tries, tries);
    }
    let outcome = p.process_output(&d, Err(DeserializeStatError::NoOutput), None, false);
    assert!(matches!(outcome, ProcessOutcome::Fatal(FatalError::NoStatistics)));
    assert_eq!(p.tries, 5);
}

#[test]
fn accepted_output_does_not_give_tries_back() {
    let mut p = processor(Platform::Unix, false);
    let d = data(Profile::Check, Scenario::Full, None);
    for _ in 0..3 {
        p.process_output(&d, Err(DeserializeStatError::NoOutput), None, false);
    }
    let outcome = p.process_output(&d, Ok((one_stat(), None, None)), None, false);
    assert!(matches!(outcome, ProcessOutcome::Record(_)));
    assert_eq!(p.tries, 3);
}

#[test]
fn other_errors_are_fatal_at_once() {
    let mut p = processor(Platform::Unix, false);
    let d = data(Profile::Check, Scenario::Full, None);
    let errors = vec![
        DeserializeStatError::ParseError("x".to_string()),
        DeserializeStatError::XperfError("f".to_string()),
        DeserializeStatError::InactiveCounter { name: "n".to_string(), share: "1".to_string() },
        DeserializeStatError::ProfileError("{".to_string()),
        DeserializeStatError::ArtifactError("a".to_string()),
    ];
    for e in errors {
        match p.process_output(&d, Err(e.clone()), None, false) {
            ProcessOutcome::Fatal(FatalError::Stat(inner)) => assert_eq!(inner, e),
            other => panic!("unexpected {:?}", other),
        }
        assert_eq!(p.tries, 0);
    }
}

#[test]
fn scenarios_are_recorded_under_the_store_names() {
    let patch = Patch::new("0-add-field.patch".to_string()).unwrap();
    let cases = vec![
        (Scenario::Full, None, StoreScenario::Empty),
        (Scenario::IncrFull, None, StoreScenario::IncrementalEmpty),
        (Scenario::IncrUnchanged, None, StoreScenario::IncrementalFresh),
        (
            Scenario::IncrPatched,
            Some(patch),
            StoreScenario::IncrementalPatch(PatchName("add field".to_string())),
        ),
    ];
    for (scenario, patch, stored) in cases {
        let mut p = processor(Platform::Unix, false);
        let d = data(Profile::Opt, scenario, patch);
        match p.process_output(&d, Ok((one_stat(), None, None)), Some((1, 2)), true) {
            ProcessOutcome::Record(rec) => {
                assert_eq!(rec.scenario, stored);
                assert_eq!(rec.profile, Profile::Opt);
                assert_eq!(rec.stats.iter().len(), 1);
                assert_eq!(rec.upload, None);
                assert_eq!(rec.self_profile, None);
            }
            other => panic!("unexpected {:?}", other),
        }
    }
}

#[test]
fn unresolved_requests_are_fatal() {
    let mut p = processor(Platform::Unix, false);
    let d = data(Profile::Opt, Scenario::All, None);
    assert!(matches!(
        p.process_output(&d, Ok((one_stat(), None, None)), None, false),
        ProcessOutcome::Fatal(FatalError::UnresolvedScenario)
    ));
    let d = data(Profile::Opt, Scenario::IncrPatched, None);
    assert!(matches!(
        p.process_output(&d, Ok((one_stat(), None, None)), None, false),
        ProcessOutcome::Fatal(FatalError::MissingPatch)
    ));
    let d = data(Profile::All, Scenario::Full, None);
    assert!(matches!(
        p.process_output(&d, Ok((one_stat(), None, None)), None, false),
        ProcessOutcome::Fatal(FatalError::UnresolvedProfile)
    ));
}

#[test]
fn sizes_are_recorded_with_the_statistics() {
    let profile = SelfProfile {
        query_data: vec![],
        artifact_sizes: vec![ArtifactSize { label: QueryLabel("object_file".to_string()), size: 100 }],
    };
    let mut p = processor(Platform::Unix, true);
    let d = data(Profile::Doc, Scenario::Full, None);
    match p.process_output(&d, Ok((one_stat(), Some(profile.clone()), None)), Some((3, 4000)), false) {
        ProcessOutcome::Record(rec) => {
            assert_eq!(rec.stats.get("cycles"), Some(&StatValue::Integer(5)));
            assert_eq!(rec.stats.get("size:object_file"), Some(&StatValue::Integer(100)));
            assert_eq!(rec.stats.get("size:doc_files_count"), Some(&StatValue::Integer(3)));
            assert_eq!(rec.stats.get("size:doc_bytes"), Some(&StatValue::Integer(4000)));
            assert_eq!(rec.stats.iter().len(), 4);
            assert_eq!(rec.self_profile, Some(profile));
        }
        other => panic!("unexpected {:?}", other),
    }
    let d = data(Profile::Debug, Scenario::Full, None);
    match p.process_output(&d, Ok((one_stat(), None, None)), Some((3, 4000)), false) {
        ProcessOutcome::Record(rec) => assert_eq!(rec.stats.iter().len(), 1),
        other => panic!("unexpected {:?}", other),
    }
}

#[test]
fn uploads_wait_for_the_one_before() {
    let files = SelfProfileFiles::Eight { file: "/tmp/p".to_string() };
    let mut p = processor(Platform::Unix, true);
    let d = data(Profile::Debug, Scenario::Full, None);
    match p.process_output(&d, Ok((one_stat(), None, Some(files.clone()))), None, false) {
        ProcessOutcome::Record(rec) => assert_eq!(rec.upload, None),
        other => panic!("unexpected {:?}", other),
    }
    assert!(!p.uploading);
    match p.process_output(&d, Ok((one_stat(), None, Some(files.clone()))), None, true) {
        ProcessOutcome::Record(rec) => {
            assert_eq!(rec.upload, Some(UploadRequest { files: files.clone(), wait_for_previous: false }))
        }
        other => panic!("unexpected {:?}", other),
    }
    assert!(p.uploading);
    let rec = p
        .insert_stats(StoreScenario::Empty, Profile::Debug, (one_stat(), None, Some(files.clone())), true)
        .unwrap();
    assert_eq!(rec.upload, Some(UploadRequest { files, wait_for_previous: true }));
    assert!(p.insert_stats(StoreScenario::Empty, Profile::All, (one_stat(), None, None), true).is_err());
}

#[test]
fn only_documentation_builds_have_a_documentation_directory() {
    assert_eq!(data(Profile::Doc, Scenario::Full, None).documentation_dir(), Some("target/doc"));
    for profile in [Profile::Check, Profile::Debug, Profile::Opt, Profile::All] {
        assert_eq!(data(profile, Scenario::Full, None).documentation_dir(), None);
    }
}
