use collector::benchmark::{BenchmarkConfig, Category};
use collector::stats::{
    store_artifact_sizes_into_stats, store_documentation_size_into_stats, ArtifactSize, QueryData,
    QueryLabel, SelfProfile, StatValue, Stats,
};
use std::time::Duration;

#[test]
fn new_stats_are_empty() {
    let stats = Stats::new();
    assert!(stats.is_empty());
    assert!(stats.iter().is_empty());
    assert!(Stats::default().is_empty());
    assert_eq!(stats.get("cycles"), None);
}

#[test]
fn insert_sets_and_replaces() {
    let mut stats = Stats::new();
    stats.insert("cycles".to_string(), StatValue::Integer(1));
    stats.insert("wall-time".to_string(), StatValue::Numeral("1.5".to_string()));
    assert!(!stats.is_empty());
    assert_eq!(stats.get("cycles"), Some(&StatValue::Integer(1)));
    stats.insert("cycles".to_string(), StatValue::Integer(2));
    assert_eq!(stats.get("cycles"), Some(&StatValue::Integer(2)));
    assert_eq!(stats.get("wall-time"), Some(&StatValue::Numeral("1.5".to_string())));
    assert_eq!(stats.get("missing"), None);
    assert_eq!(stats.iter().len(), 2);
}

#[test]
fn iter_lists_each_name_once() {
    let mut stats = Stats::new();
    for (i, name) in ["a", "b", "a", "c", "b", "a"].iter().enumerate() {
        stats.insert(name.to_string(), StatValue::Integer(i as u64));
    }
    let mut listed: Vec<(String, StatValue)> = stats.iter().clone();
    listed.sort_by(|x, y| x.0.cmp(&y.0));
    assert_eq!(
        listed,
        vec![
            ("a".to_string(), StatValue::Integer(5)),
            ("b".to_string(), StatValue::Integer(4)),
            ("c".to_string(), StatValue::Integer(3)),
        ]
    );
}

#[test]
fn clone_keeps_the_statistics() {
    let mut stats = Stats::new();
    stats.insert("x".to_string(), StatValue::Numeral("0.5".to_string()));
    let copy = stats.clone();
    stats.insert("x".to_string(), StatValue::Integer(9));
    assert_eq!(copy.get("x"), Some(&StatValue::Numeral("0.5".to_string())));
    assert_eq!(stats.get("x"), Some(&StatValue::Integer(9)));
}

#[test]
fn artifact_sizes_become_statistics() {
    let profile = SelfProfile {
        query_data: vec![],
        artifact_sizes: vec![
            ArtifactSize { label: QueryLabel("linked_artifact".to_string()), size: 1024 },
            ArtifactSize { label: QueryLabel("dep_graph".to_string()), size: 7 },
            ArtifactSize { label: QueryLabel("linked_artifact".to_string()), size: 2048 },
        ],
    };
    let mut stats = Stats::new();
    stats.insert("cycles".to_string(), StatValue::Integer(1));
    store_artifact_sizes_into_stats(&mut stats, &profile);
    assert_eq!(stats.get("size:linked_artifact"), Some(&StatValue::Integer(2048)));
    assert_eq!(stats.get("size:dep_graph"), Some(&StatValue::Integer(7)));
    assert_eq!(stats.get("cycles"), Some(&StatValue::Integer(1)));
    assert_eq!(stats.iter().len(), 3);
}

#[test]
fn documentation_size_becomes_two_statistics() {
    let mut stats = Stats::new();
    store_documentation_size_into_stats(&mut stats, None);
    assert!(stats.is_empty());
    store_documentation_size_into_stats(&mut stats, Some((12, 3456)));
    assert_eq!(stats.get("size:doc_files_count"), Some(&StatValue::Integer(12)));
    assert_eq!(stats.get("size:doc_bytes"), Some(&StatValue::Integer(3456)));
    assert_eq!(stats.iter().len(), 2);
}

#[test]
fn a_copy_of_a_summary_keeps_its_durations() {
    let profile = SelfProfile {
        query_data: vec![QueryData {
            label: QueryLabel("typeck".to_string()),
            self_time: Duration::new(1, 500),
            number_of_cache_hits: 3,
            invocation_count: 4,
            blocked_time: Duration::from_millis(7),
            incremental_load_time: Duration::from_nanos(9),
        }],
        artifact_sizes: vec![],
    };
    let copy = profile.clone();
    assert_eq!(copy, profile);
    assert_eq!(copy.query_data[0].self_time, Duration::new(1, 500));
    assert_eq!(copy.query_data[0].blocked_time, Duration::from_millis(7));
    assert_eq!(copy.query_data[0].incremental_load_time, Duration::from_nanos(9));
}

#[test]
fn default_options_enable_three_runs() {
    let config = BenchmarkConfig::new(Category("secondary".to_string()));
    assert!(!config.disabled);
    assert_eq!(config.runs, 3);
    assert_eq!(config.cargo_opts, None);
    assert_eq!(config.category, Category("secondary".to_string()));
}
