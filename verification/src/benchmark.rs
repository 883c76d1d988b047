//! A benchmark: its name, its options, its patches, and the order in which
//! its scenarios are measured.

use crate::cargo_process::{CargoProcess, Compiler};
use crate::numeral::{decimal, parse_decimal, parse_unsigned, push_decimal};
use crate::patch::{ordered, sort_by_index, with_index, Patch, PatchError, PatchView};
use crate::text::{
    chars_of, concat3, ends_with, push_text, split_words, string_from, text_of, texts, words,
};
use crate::tool::Profile;
use vstd::prelude::*;

verus! {

/// The name of a benchmark. Names are unique and are ordered as text.
#[derive(Ord, PartialOrd, Eq, PartialEq, Clone, Hash, Debug)]
pub struct BenchmarkName(pub String);

impl BenchmarkName {
    pub fn as_str(&self) -> (r: &str)
        ensures
            r@ == self.0@,
    {
        self.0.as_str()
    }
}

/// The number of iterations of a benchmark that states none.
pub open spec fn spec_default_runs() -> usize {
    3
}

pub fn default_runs() -> (r: usize)
    ensures
        r == spec_default_runs(),
{
    3
}

/// The kind of a benchmark, by the tag that its options give it.
#[derive(Clone, Debug, PartialEq, Eq)]
pub struct Category(pub String);

/// The options of a benchmark, as its directory states them.
#[derive(Clone, Debug, PartialEq, Eq)]
pub struct BenchmarkConfig {
    /// Extra arguments for cargo, parted by white space.
    pub cargo_opts: Option<String>,
    /// Extra arguments for the last compilation, parted by white space.
    pub cargo_rustc_opts: Option<String>,
    /// The manifest, where it is not `Cargo.toml` in the directory.
    pub cargo_toml: Option<String>,
    pub disabled: bool,
    /// The number of iterations.
    pub runs: usize,
    /// The file that should be touched to ensure cargo re-checks the leaf
    /// crate we're interested in. Likely, something similar to `src/lib.rs`.
    /// The default if this is not present is to touch all sources in the
    /// directory of the manifest.
    pub touch_file: Option<String>,
    pub category: Category,
}

impl BenchmarkConfig {
    /// The options of a benchmark of this category that states nothing
    /// else: it is enabled and runs `default_runs()` iterations.
    pub fn new(category: Category) -> (r: BenchmarkConfig)
        ensures
            r == (BenchmarkConfig {
                cargo_opts: None,
                cargo_rustc_opts: None,
                cargo_toml: None,
                disabled: false,
                runs: spec_default_runs(),
                touch_file: None,
                category,
            }),
    {
        BenchmarkConfig {
            cargo_opts: None,
            cargo_rustc_opts: None,
            cargo_toml: None,
            disabled: false,
            runs: default_runs(),
            touch_file: None,
            category,
        }
    }
}

/// One benchmark: a crate in a directory of its own, with the patches that
/// its incremental builds apply.
pub struct Benchmark {
    pub name: BenchmarkName,
    pub path: String,
    pub patches: Vec<Patch>,
    pub config: BenchmarkConfig,
}

/// Why a benchmark could not be set up.
#[derive(Clone, Debug, PartialEq, Eq)]
pub enum SetupError {
    /// The file of this name is called a patch and does not begin with a
    /// number.
    BadPatch(String),
    /// The directory of the benchmark of this name states no options.
    MissingConfig(String),
}

/// Whether a file of this name holds a patch: the name ends in `.patch`, and
/// that is not all of it.
pub open spec fn is_patch_file(name: Seq<char>) -> bool {
    ".patch"@.is_suffix_of(name) && name.len() > ".patch"@.len()
}

/// The names among `names` that are those of patch files, in their order.
pub open spec fn patch_files(names: Seq<Seq<char>>) -> Seq<Seq<char>> {
    names.filter(|n: Seq<char>| is_patch_file(n))
}

/// The first of the names that does not begin with a number.
pub open spec fn first_bad_patch(files: Seq<Seq<char>>) -> Option<Seq<char>>
    decreases files.len(),
{
    if files.len() == 0 {
        None
    } else if crate::patch::patch_index(files[0]).is_none() {
        Some(files[0])
    } else {
        first_bad_patch(files.drop_first())
    }
}

/// The patch in the file of each name, where each name begins with a number.
pub open spec fn parsed_patches(files: Seq<Seq<char>>) -> Seq<PatchView> {
    files.map_values(
        |n: Seq<char>|
            PatchView {
                index: crate::patch::patch_index(n).unwrap(),
                name: crate::patch::patch_name(n),
                path: n,
            },
    )
}

/// The views of a list of patches.
pub open spec fn patch_views(ps: Seq<Patch>) -> Seq<PatchView> {
    ps.map_values(|p: Patch| p@)
}

/// The patches with the number `k` among the views, in their order.
pub open spec fn views_with_index(ps: Seq<PatchView>, k: nat) -> Seq<PatchView> {
    ps.filter(|p: PatchView| p.index == k)
}

proof fn lemma_views_with_index(ps: Seq<Patch>, k: nat)
    ensures
        views_with_index(patch_views(ps), k) == patch_views(with_index(ps, k)),
    decreases ps.len(),
{
    reveal(Seq::filter);
    if ps.len() > 0 {
        lemma_views_with_index(ps.drop_last(), k);
        assert(patch_views(ps).drop_last() == patch_views(ps.drop_last()));
        assert(patch_views(ps).last() == ps.last()@);
        if ps.last().spec_index() == k {
            assert(patch_views(with_index(ps.drop_last(), k).push(ps.last())) == patch_views(
                with_index(ps.drop_last(), k),
            ).push(ps.last()@));
        }
    } else {
        assert(patch_views(ps) == Seq::<PatchView>::empty());
        assert(patch_views(with_index(ps, k)) == Seq::<PatchView>::empty());
    }
}

/// Whether `ps` are the patches in the files of these names: one for each
/// name, ordered by their numbers, those of one number in the order of the
/// names.
pub open spec fn are_patches_of(ps: Seq<Patch>, files: Seq<Seq<char>>) -> bool {
    &&& ordered(ps)
    &&& ps.len() == files.len()
    &&& forall|k: nat|
        views_with_index(patch_views(ps), k) == views_with_index(parsed_patches(files), k)
}

/// The patches of a benchmark, from the names of the files in its
/// directory. The first patch file whose name does not begin with a number
/// is an error.
pub fn collect_patches(file_names: &Vec<String>) -> (r: Result<Vec<Patch>, PatchError>)
    ensures
        match r {
            Ok(ps) => first_bad_patch(patch_files(texts(file_names@))).is_none()
                && are_patches_of(ps@, patch_files(texts(file_names@))),
            Err(PatchError::BadIndex(n)) => first_bad_patch(patch_files(texts(file_names@)))
                == Some(n@),
        },
{
    let ending = chars_of(".patch");
    let ghost names = texts(file_names@);
    let mut found: Vec<Patch> = Vec::new();
    let ghost mut files: Seq<Seq<char>> = Seq::empty();
    let mut i: usize = 0;
    proof {
        reveal(Seq::filter);
        assert(names.take(0) == Seq::<Seq<char>>::empty());
        assert(patch_views(found@) =~= parsed_patches(files));
    }
    while i < file_names.len()
        invariant
            i <= file_names@.len(),
            names == texts(file_names@),
            ending@ == ".patch"@,
            files == patch_files(names.take(i as int)),
            first_bad_patch(files).is_none(),
            patch_views(found@) == parsed_patches(files),
        decreases file_names@.len() - i,
    {
        let name = chars_of(file_names[i].as_str());
        proof {
            reveal(Seq::filter);
            assert(names.take(i + 1).drop_last() == names.take(i as int));
            assert(names.take(i + 1).last() == file_names@[i as int]@);
        }
        if ends_with(name.as_slice(), ending.as_slice()) && name.len() > ending.len() {
            let ghost n = file_names@[i as int]@;
            match Patch::new(file_names[i].clone()) {
                Ok(p) => {
                    let ghost before = found@;
                    found.push(p);
                    proof {
                        lemma_first_bad_patch_push(files, n);
                        assert(patch_views(found@) =~= patch_views(before).push(p@));
                        assert(parsed_patches(files.push(n)) =~= parsed_patches(files).push(p@));
                        files = files.push(n);
                    }
                },
                Err(e) => {
                    proof {
                        lemma_first_bad_patch_push(files, n);
                        assert(files.push(n) == patch_files(names.take(i + 1)));
                        assert(names == names.take(i + 1) + names.skip(i + 1));
                        Seq::filter_distributes_over_add(
                            names.take(i + 1),
                            names.skip(i + 1),
                            |n: Seq<char>| is_patch_file(n),
                        );
                        lemma_first_bad_patch_prefix(
                            patch_files(names),
                            patch_files(names.take(i + 1)),
                            patch_files(names.skip(i + 1)),
                        );
                    }
                    return Err(e);
                },
            }
        }
        i += 1;
    }
    proof {
        assert(names.take(i as int) == names);
    }
    let ghost unsorted = found@;
    let sorted = sort_by_index(found);
    proof {
        assert forall|k: nat|
            views_with_index(patch_views(sorted@), k) == views_with_index(
                parsed_patches(files),
                k,
            ) by {
            lemma_views_with_index(sorted@, k);
            lemma_views_with_index(unsorted, k);
        }
    }
    Ok(sorted)
}

proof fn lemma_first_bad_patch_push(files: Seq<Seq<char>>, n: Seq<char>)
    requires
        first_bad_patch(files).is_none(),
    ensures
        first_bad_patch(files.push(n)) == if crate::patch::patch_index(n).is_none() {
            Some(n)
        } else {
            None
        },
    decreases files.len(),
{
    if files.len() > 0 {
        lemma_first_bad_patch_push(files.drop_first(), n);
        assert(files.push(n).drop_first() == files.drop_first().push(n));
        assert(files.push(n)[0] == files[0]);
    } else {
        assert(files.push(n).drop_first() == Seq::<Seq<char>>::empty());
        assert(files.push(n)[0] == n);
        assert(first_bad_patch(Seq::<Seq<char>>::empty()).is_none());
    }
}

proof fn lemma_first_bad_patch_prefix(
    all: Seq<Seq<char>>,
    head: Seq<Seq<char>>,
    tail: Seq<Seq<char>>,
)
    requires
        all == head + tail,
        first_bad_patch(head).is_some(),
    ensures
        first_bad_patch(all) == first_bad_patch(head),
    decreases head.len(),
{
    if head.len() > 0 {
        assert(all[0] == head[0]);
        if crate::patch::patch_index(head[0]).is_some() {
            assert(all.drop_first() == head.drop_first() + tail);
            lemma_first_bad_patch_prefix(all.drop_first(), head.drop_first(), tail);
        }
    }
}

/// The text of an option that may be missing: nothing where it is.
pub open spec fn option_text(s: Option<String>) -> Seq<char> {
    match s {
        Some(s) => s@,
        None => Seq::empty(),
    }
}

/// The argument that sets the number of cargo's jobs, where the caller
/// names a number.
pub open spec fn thread_args(thread_count: Option<Seq<char>>) -> Seq<Seq<char>> {
    match thread_count {
        Some(t) => match parse_unsigned(t, u32::MAX as nat) {
            Some(n) => seq!["-j"@ + decimal(n)],
            None => Seq::empty(),
        },
        None => Seq::empty(),
    }
}

impl Benchmark {
    /// What holds of every benchmark that was made from its directory: its
    /// patches are in the order of their numbers.
    pub open spec fn wf(&self) -> bool {
        ordered(self.patches@)
    }

    /// The benchmark of this name in the directory `path`, which holds the
    /// files of these names and states these options.
    pub fn new(
        name: String,
        path: String,
        file_names: &Vec<String>,
        config: Option<BenchmarkConfig>,
    ) -> (r: Result<Benchmark, SetupError>)
        ensures
            match r {
                Ok(b) => b.wf() && first_bad_patch(patch_files(texts(file_names@))).is_none()
                    && config == Some(b.config) && b.name.0@ == name@ && b.path@ == path@
                    && are_patches_of(
                    b.patches@,
                    patch_files(texts(file_names@)),
                ),
                Err(SetupError::BadPatch(n)) => first_bad_patch(patch_files(texts(file_names@)))
                    == Some(n@),
                Err(SetupError::MissingConfig(n)) => first_bad_patch(
                    patch_files(texts(file_names@)),
                ).is_none() && config.is_none() && n@ == name@,
            },
    {
        let patches = match collect_patches(file_names) {
            Ok(ps) => ps,
            Err(PatchError::BadIndex(n)) => {
                return Err(SetupError::BadPatch(n));
            },
        };
        match config {
            Some(config) => Ok(Benchmark { name: BenchmarkName(name), path, patches, config }),
            None => Err(SetupError::MissingConfig(name)),
        }
    }

    pub fn category(&self) -> (r: &Category)
        ensures
            *r == self.config.category,
    {
        &self.config.category
    }

    /// The description of an invocation of this benchmark in `cwd`, with no
    /// measurement attached. `thread_count` is the number of jobs that the
    /// caller wants cargo to run, as text.
    pub fn mk_cargo_process(
        &self,
        compiler: Compiler,
        cwd: &str,
        profile: Profile,
        thread_count: Option<&str>,
    ) -> (r: CargoProcess)
        ensures
            r.compiler == compiler,
            r.cwd@ == cwd@,
            r.profile == profile,
            !r.incremental,
            r.processor_etc.is_none(),
            r.processor_name.0@ == self.name.0@,
            r.manifest_path@ == (match self.config.cargo_toml {
                Some(m) => m@,
                None => "Cargo.toml"@,
            }),
            texts(r.cargo_args@) == words(option_text(self.config.cargo_opts)) + thread_args(
                match thread_count {
                    Some(t) => Some(t@),
                    None => None,
                },
            ),
            texts(r.rustc_args@) == words(option_text(self.config.cargo_rustc_opts)),
            text_of(r.touch_file) == text_of(self.config.touch_file),
            r.jobserver.is_none(),
    {
        let mut cargo_args = match &self.config.cargo_opts {
            Some(opts) => {
                let text = chars_of(opts.as_str());
                split_words(text.as_slice())
            },
            None => {
                let text: Vec<char> = Vec::new();
                split_words(text.as_slice())
            },
        };
        let ghost plain = texts(cargo_args@);
        match thread_count {
            Some(t) => {
                let text = chars_of(t);
                match parse_decimal(text.as_slice(), u32::MAX as u64) {
                    Some(count) => {
                        let mut arg = chars_of("-j");
                        push_decimal(&mut arg, count);
                        let arg = string_from(arg.as_slice());
                        push_text(&mut cargo_args, arg.as_str());
                        proof {
                            assert(texts(cargo_args@) =~= plain + seq!["-j"@ + decimal(
                                count as nat,
                            )]);
                        }
                    },
                    None => {
                        proof {
                            assert(plain + Seq::<Seq<char>>::empty() =~= plain);
                        }
                    },
                }
            },
            None => {
                proof {
                    assert(plain + Seq::<Seq<char>>::empty() =~= plain);
                }
            },
        }
        let rustc_args = match &self.config.cargo_rustc_opts {
            Some(opts) => {
                let text = chars_of(opts.as_str());
                split_words(text.as_slice())
            },
            None => {
                let text: Vec<char> = Vec::new();
                split_words(text.as_slice())
            },
        };
        CargoProcess {
            compiler,
            processor_name: BenchmarkName(self.name.0.clone()),
            cwd: cwd.to_owned(),
            profile,
            incremental: false,
            processor_etc: None,
            manifest_path: match &self.config.cargo_toml {
                Some(m) => m.clone(),
                None => "Cargo.toml".to_owned(),
            },
            cargo_args,
            rustc_args,
            touch_file: match &self.config.touch_file {
                Some(f) => Some(f.clone()),
                None => None,
            },
            jobserver: None,
        }
    }
}

impl SetupError {
    /// The error in words.
    pub open spec fn spec_message(self) -> Seq<char> {
        match self {
            SetupError::BadPatch(n) => "`"@ + n@
                + "` should be in the format 000-name.patch, but did not start with a number"@,
            SetupError::MissingConfig(n) => "missing a perf-config.json file for `"@ + n@ + "`"@,
        }
    }

    pub fn message(&self) -> (r: String)
        ensures
            r@ == self.spec_message(),
    {
        match self {
            SetupError::BadPatch(n) => concat3(
                "`",
                n.as_str(),
                "` should be in the format 000-name.patch, but did not start with a number",
            ),
            SetupError::MissingConfig(n) => concat3(
                "missing a perf-config.json file for `",
                n.as_str(),
                "`",
            ),
        }
    }
}

} // verus!
