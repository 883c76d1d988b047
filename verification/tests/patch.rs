use collector::benchmark::{collect_patches, default_runs, Benchmark, BenchmarkConfig, BenchmarkName, Category, SetupError};
use collector::patch::{sort_by_index, Patch, PatchError, PatchName};
use std::collections::HashSet;

fn config() -> BenchmarkConfig {
    BenchmarkConfig {
        cargo_opts: None,
        cargo_rustc_opts: None,
        cargo_toml: None,
        disabled: false,
        runs: default_runs(),
        touch_file: None,
        category: Category("primary".to_string()),
    }
}

fn names(list: &[&str]) -> Vec<String> {
    list.iter().map(|s| s.to_string()).collect()
}

#[test]
fn default_runs_is_three() {
    assert_eq!(default_runs(), 3);
}

#[test]
fn patch_name_and_index_come_from_the_file_name() {
    let patch = Patch::new("003-add-a-println.patch".to_string()).unwrap();
    assert_eq!(patch.index(), 3);
    assert_eq!(patch.name, PatchName("add a println".to_string()));
    assert_eq!(patch.name.as_str(), "add a println");
    assert_eq!(patch.path(), "003-add-a-println.patch");
    assert_eq!(patch.apply(), vec!["apply", "003-add-a-println.patch"]);
}

#[test]
fn patch_names_lose_every_patch_ending() {
    let patch = Patch::new("0-a.patch-b.patch".to_string()).unwrap();
    assert_eq!(patch.name.as_str(), "a b");
    let patch = Patch::new("+12-x".to_string()).unwrap();
    assert_eq!(patch.index(), 12);
    assert_eq!(patch.name.as_str(), "x");
    let patch = Patch::new("7-".to_string()).unwrap();
    assert_eq!(patch.name.as_str(), "");
    let patch = Patch::new("7--a--b-".to_string()).unwrap();
    assert_eq!(patch.name.as_str(), " a  b ");
    let patch = Patch::new("12".to_string()).unwrap();
    assert_eq!(patch.index(), 12);
    assert_eq!(patch.name.as_str(), "");
}

#[test]
fn patch_without_a_number_is_refused() {
    for name in ["name.patch", "-1-x.patch", "x1-y.patch", "-x.patch", "", "1.5-x.patch", "99999999999999999999999-x.patch"] {
        assert_eq!(
            Patch::new(name.to_string()),
            Err(PatchError::BadIndex(name.to_string())),
            "file name {:?}",
            name
        );
    }
    assert_eq!(
        PatchError::BadIndex("x.patch".to_string()).message(),
        "`x.patch` should be in the format 000-name.patch, but did not start with a number"
    );
}

#[test]
fn patches_are_the_same_by_name_alone() {
    let a = Patch::new("1-same-name.patch".to_string()).unwrap();
    let b = Patch::new("2-same-name.patch".to_string()).unwrap();
    let c = Patch::new("1-other-name.patch".to_string()).unwrap();
    assert!(a == b);
    assert!(a != c);
    let mut set = HashSet::new();
    set.insert(a);
    assert!(set.contains(&b));
    assert!(!set.contains(&c));
}

#[test]
fn sorting_is_by_number_and_stable() {
    let files = ["10-j.patch", "2-b.patch", "1-a.patch", "2-c.patch", "0-z.patch", "2-a.patch"];
    let patches: Vec<Patch> = files.iter().map(|f| Patch::new(f.to_string()).unwrap()).collect();
    let sorted = sort_by_index(patches);
    let order: Vec<&str> = sorted.iter().map(|p| p.path()).collect();
    assert_eq!(order, vec!["0-z.patch", "1-a.patch", "2-b.patch", "2-c.patch", "2-a.patch", "10-j.patch"]);
    assert!(sort_by_index(vec![]).is_empty());
}

#[test]
fn patches_are_ascending_whatever_the_directory_order() {
    let orders = [
        ["0-a.patch", "1-b.patch", "2-c.patch"],
        ["2-c.patch", "1-b.patch", "0-a.patch"],
        ["1-b.patch", "2-c.patch", "0-a.patch"],
        ["2-c.patch", "0-a.patch", "1-b.patch"],
    ];
    for order in orders {
        let patches = collect_patches(&names(&order)).unwrap();
        let indices: Vec<usize> = patches.iter().map(|p| p.index()).collect();
        assert_eq!(indices, vec![0, 1, 2]);
    }
}

#[test]
fn only_patch_files_are_taken() {
    let files = names(&["Cargo.toml", "1-b.patch", "src", ".patch", "notes.patch.txt", "0-a.patch", "perf-config.json"]);
    let patches = collect_patches(&files).unwrap();
    let paths: Vec<&str> = patches.iter().map(|p| p.path()).collect();
    assert_eq!(paths, vec!["0-a.patch", "1-b.patch"]);
}

#[test]
fn the_first_bad_patch_file_is_reported() {
    let files = names(&["0-a.patch", "readme", "bad.patch", "worse.patch"]);
    assert_eq!(collect_patches(&files), Err(PatchError::BadIndex("bad.patch".to_string())));
    let err = Benchmark::new("b".to_string(), "/b".to_string(), &files, Some(config())).err();
    assert_eq!(err, Some(SetupError::BadPatch("bad.patch".to_string())));
    let err = Benchmark::new("b".to_string(), "/b".to_string(), &files, None).err();
    assert_eq!(err, Some(SetupError::BadPatch("bad.patch".to_string())));
}

#[test]
fn a_benchmark_needs_its_options() {
    let files = names(&["0-a.patch"]);
    let err = Benchmark::new("helloworld".to_string(), "/b".to_string(), &files, None).err();
    assert_eq!(err, Some(SetupError::MissingConfig("helloworld".to_string())));
    assert_eq!(
        err.unwrap().message(),
        "missing a perf-config.json file for `helloworld`"
    );
}

#[test]
fn a_benchmark_holds_its_patches_in_order() {
    let files = names(&["1-second.patch", "lib.rs", "0-first.patch"]);
    let bench = Benchmark::new("helloworld".to_string(), "/b".to_string(), &files, Some(config())).ok().unwrap();
    assert_eq!(bench.name, BenchmarkName("helloworld".to_string()));
    assert_eq!(bench.name.as_str(), "helloworld");
    assert_eq!(bench.path, "/b");
    assert_eq!(bench.category(), &Category("primary".to_string()));
    let names: Vec<&str> = bench.patches.iter().map(|p| p.name.as_str()).collect();
    assert_eq!(names, vec!["first", "second"]);
}

#[test]
fn patch_files_are_those_that_std_gives_the_patch_extension() {
    for name in ["x.patch", ".patch", "..patch", "a.patch.txt", "patch", "a.PATCH", "a.patchx", "dir.patch.patch", "a."] {
        let is_patch = std::path::Path::new(name).extension().map_or(false, |e| e == "patch");
        let taken = collect_patches(&names(&[name])) != Ok(vec![]);
        assert_eq!(taken, is_patch, "file name {:?}", name);
    }
}
