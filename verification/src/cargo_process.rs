//! One invocation of the compiler through cargo: the command line and the
//! environment it runs with, and the loop that repeats it until its output
//! is accepted.

use crate::benchmark::BenchmarkName;
use crate::patch::{patch_of, Patch};
use crate::processor::{ContextView, Output, ProcessError, ProcessOutputData, Processor, Retry};
use crate::text::{
    chars_of, concat3, extend_texts, push_pair, push_text, string_from, text_pairs, texts, trim,
    trim_chars,
};
use crate::tool::{PerfTool, Profile, Scenario};
use vstd::prelude::*;
use vstd::string::StringExecFns;

verus! {

/// `jobserver::Client`: a handle on a pool of job tokens, shared with the
/// processes that are given it. The library carries it along and never looks
/// inside.
#[verifier::external_type_specification]
#[verifier::external_body]
pub struct ExClient(jobserver::Client);

/// The toolchain under test.
#[derive(Clone, Debug, PartialEq, Eq)]
pub struct Compiler {
    pub rustc: String,
    pub rustdoc: Option<String>,
    pub cargo: String,
    pub triple: String,
    pub is_nightly: bool,
}

/// The executables that stand in for the compiler and the documentation
/// generator. Cargo runs them in place of the real ones, and they decide
/// which compilation is measured.
#[derive(Clone, Debug, PartialEq, Eq)]
pub struct Shims {
    pub rustc: String,
    pub rustdoc: String,
}

/// What an invocation takes from the process it is built in.
#[derive(Clone, Debug, PartialEq, Eq)]
pub struct Surroundings {
    pub shims: Shims,
    /// Whether cargo is asked for a report of its timings.
    pub record_timing: bool,
    /// The directory of the incremental state, inside the working directory.
    pub incremental_dir: String,
}

/// A process to spawn.
#[derive(Clone, Debug, PartialEq, Eq)]
pub struct CommandSpec {
    pub program: String,
    pub cwd: String,
    pub args: Vec<String>,
    /// The variables set in the environment of the process, beside those it
    /// inherits.
    pub envs: Vec<(String, String)>,
}

/// What a `CommandSpec` stands for in contracts.
pub struct CommandView {
    pub program: Seq<char>,
    pub cwd: Seq<char>,
    pub args: Seq<Seq<char>>,
    pub envs: Seq<(Seq<char>, Seq<char>)>,
}

impl View for CommandSpec {
    type V = CommandView;

    open spec fn view(&self) -> CommandView {
        CommandView {
            program: self.program@,
            cwd: self.cwd@,
            args: texts(self.args@),
            envs: text_pairs(self.envs@),
        }
    }
}

/// What has to look modified, so that cargo builds the benchmark anew.
#[derive(Clone, Debug, PartialEq, Eq)]
pub enum TouchTarget {
    /// The file of this path, relative to the working directory.
    File(String),
    /// Every source file below the directory of the manifest of this path,
    /// relative to the working directory.
    ManifestDir(String),
}

/// What a `TouchTarget` stands for in contracts.
pub enum TouchView {
    File(Seq<char>),
    ManifestDir(Seq<char>),
}

impl View for TouchTarget {
    type V = TouchView;

    open spec fn view(&self) -> TouchView {
        match self {
            TouchTarget::File(f) => TouchView::File(f@),
            TouchTarget::ManifestDir(m) => TouchView::ManifestDir(m@),
        }
    }
}

/// Why an invocation was not made.
#[derive(Clone, Copy, Debug, PartialEq, Eq, Structural)]
pub enum InvokeError {
    /// The tool cannot measure the scenario.
    UnsupportedScenario(Scenario),
    /// The tool cannot measure the profile.
    UnsupportedProfile(Profile),
    /// The profile stands for all profiles: no single build can have it.
    UnresolvedProfile,
    /// The last compilation is to be measured, and there is no tool to
    /// measure it with.
    MissingProcessor,
    /// The caller reported something that the invocation was not waiting for.
    UnexpectedEvent,
    /// A command of the invocation could not be run, or did not end with
    /// success.
    CommandFailed,
}

/// The measurement that an invocation belongs to.
#[derive(Clone, Debug, PartialEq, Eq)]
pub struct Measured {
    pub scenario: Scenario,
    pub scenario_str: String,
    pub patch: Option<Patch>,
}

/// The description of one invocation of the compiler through cargo.
pub struct CargoProcess {
    pub compiler: Compiler,
    pub cwd: String,
    pub profile: Profile,
    pub incremental: bool,
    pub processor_etc: Option<Measured>,
    pub processor_name: BenchmarkName,
    pub manifest_path: String,
    pub cargo_args: Vec<String>,
    pub rustc_args: Vec<String>,
    pub touch_file: Option<String>,
    pub jobserver: Option<jobserver::Client>,
}

/// The arguments that select the profile. Debug is cargo's default, and a
/// documentation build has no profile.
pub open spec fn profile_args(profile: Profile) -> Seq<Seq<char>> {
    match profile {
        Profile::Check => seq!["--profile"@, "check"@],
        Profile::Opt => seq!["--release"@],
        _ => Seq::empty(),
    }
}

/// The arguments that ask cargo for a report of its timings.
pub open spec fn timing_args(record_timing: bool) -> Seq<Seq<char>> {
    if record_timing {
        seq!["-Zunstable-options"@, "-Ztimings"@]
    } else {
        Seq::empty()
    }
}

/// The arguments for the last compilation, which only the shim reads: to
/// run it under the tool of this name, with the extra compiler arguments, or
/// to skip it.
pub open spec fn wrap_args(wrap: Option<Seq<char>>, rustc_args: Seq<Seq<char>>) -> Seq<Seq<char>> {
    match wrap {
        Some(tool) => seq!["--wrap-rustc-with"@, tool] + rustc_args,
        None => seq!["--skip-this-rustc"@],
    }
}

/// The arguments that switch incremental compilation on, with its state in
/// the directory `dir`.
pub open spec fn incremental_args(incremental: bool, dir: Seq<char>) -> Seq<Seq<char>> {
    if incremental {
        seq!["-C"@, "incremental="@ + dir]
    } else {
        Seq::empty()
    }
}

impl CargoProcess {
    pub fn incremental(self, incremental: bool) -> (r: CargoProcess)
        ensures
            r == (CargoProcess { incremental, ..self }),
    {
        let mut this = self;
        this.incremental = incremental;
        this
    }

    /// Attaches the measurement that the output of the invocation is for.
    pub fn processor(self, scenario: Scenario, scenario_str: &str, patch: Option<&Patch>) -> (r:
        CargoProcess)
        ensures
            r.processor_etc matches Some(m) && m.scenario == scenario && m.scenario_str@
                == scenario_str@ && patch_of(m.patch) == (match patch {
                Some(p) => Some(p@),
                None => None,
            }),
            r == (CargoProcess { processor_etc: r.processor_etc, ..self }),
    {
        let mut this = self;
        this.processor_etc =
        Some(
            Measured {
                scenario,
                scenario_str: scenario_str.to_owned(),
                patch: match patch {
                    Some(p) => Some(p.duplicate()),
                    None => None,
                },
            },
        );
        this
    }

    pub fn jobserver(self, server: jobserver::Client) -> (r: CargoProcess)
        ensures
            r == (CargoProcess { jobserver: Some(server), ..self }),
    {
        let mut this = self;
        this.jobserver = Some(server);
        this
    }

    /// The environment of every cargo invocation: the shims in place of the
    /// compiler and the documentation generator, with the real paths beside
    /// them; no incremental compilation but where it is asked for; unstable
    /// features allowed.
    pub open spec fn spec_base_env(&self, shims: Shims) -> Seq<(Seq<char>, Seq<char>)> {
        seq![
            ("RUSTC"@, shims.rustc@),
            ("RUSTC_REAL"@, self.compiler.rustc@),
            ("CARGO_INCREMENTAL"@, "0"@),
            ("RUSTC_BOOTSTRAP"@, "1"@),
        ] + (match self.compiler.rustdoc {
            Some(r) => seq![("RUSTDOC"@, shims.rustdoc@), ("RUSTDOC_REAL"@, r@)],
            None => Seq::empty(),
        })
    }

    pub open spec fn spec_base_command(
        &self,
        cwd: Seq<char>,
        subcommand: Seq<char>,
        shims: Shims,
    ) -> CommandView {
        CommandView {
            program: self.compiler.cargo@,
            cwd,
            args: seq![subcommand, "--manifest-path"@, self.manifest_path@],
            envs: self.spec_base_env(shims),
        }
    }

    /// The cargo invocation of `subcommand` in `cwd`, before the arguments of
    /// the subcommand.
    pub fn base_command(&self, cwd: &str, subcommand: &str, shims: &Shims) -> (r: CommandSpec)
        ensures
            r@ == self.spec_base_command(cwd@, subcommand@, *shims),
    {
        let mut args: Vec<String> = Vec::new();
        let mut envs: Vec<(String, String)> = Vec::new();
        proof {
            assert(texts(args@) =~= Seq::<Seq<char>>::empty());
            assert(text_pairs(envs@) =~= Seq::<(Seq<char>, Seq<char>)>::empty());
        }
        push_text(&mut args, subcommand);
        push_text(&mut args, "--manifest-path");
        push_text(&mut args, self.manifest_path.as_str());
        // Not all cargo invocations need all of these variables, but it
        // doesn't hurt to have them.
        push_pair(&mut envs, "RUSTC", shims.rustc.as_str());
        push_pair(&mut envs, "RUSTC_REAL", self.compiler.rustc.as_str());
        // Incremental compilation is asked for on the command line, for the
        // benchmark alone: what cargo would cache for the dependencies is a
        // waste of time.
        push_pair(&mut envs, "CARGO_INCREMENTAL", "0");
        // The invocations use unstable flags, on stable compilers too.
        push_pair(&mut envs, "RUSTC_BOOTSTRAP", "1");
        match &self.compiler.rustdoc {
            Some(r) => {
                push_pair(&mut envs, "RUSTDOC", shims.rustdoc.as_str());
                push_pair(&mut envs, "RUSTDOC_REAL", r.as_str());
            },
            None => {},
        }
        let command = CommandSpec {
            program: self.compiler.cargo.clone(),
            cwd: cwd.to_owned(),
            args,
            envs,
        };
        proof {
            assert(command@.args =~= self.spec_base_command(cwd@, subcommand@, *shims).args);
            assert(command@.envs =~= self.spec_base_command(cwd@, subcommand@, *shims).envs);
        }
        command
    }

    /// The invocation that asks cargo for the id of the package in the
    /// working directory.
    pub fn get_pkgid(&self, cwd: &str, shims: &Shims) -> (r: CommandSpec)
        ensures
            r@ == self.spec_base_command(cwd@, "pkgid"@, *shims),
    {
        self.base_command(cwd, "pkgid", shims)
    }

    /// What has to be touched before the last compilation is measured: the
    /// file that the benchmark names for it, or else all the sources beside
    /// the manifest.
    pub open spec fn spec_touch_target(&self) -> TouchView {
        match self.touch_file {
            Some(f) => TouchView::File(f@),
            None => TouchView::ManifestDir(self.manifest_path@),
        }
    }

    pub fn touch_target(&self) -> (r: TouchTarget)
        ensures
            r@ == self.spec_touch_target(),
    {
        match &self.touch_file {
            Some(f) => TouchTarget::File(f.clone()),
            None => TouchTarget::ManifestDir(self.manifest_path.clone()),
        }
    }

    /// The cargo subcommand of the invocation. With a measurement attached
    /// the tool decides, and must be able to measure the scenario and the
    /// profile; without one, the profile decides.
    pub open spec fn spec_subcommand(&self, tool: Option<PerfTool>, needs_final: bool) -> Result<
        Seq<char>,
        InvokeError,
    > {
        match self.processor_etc {
            Some(m) => match tool {
                None => Err(InvokeError::MissingProcessor),
                Some(t) => {
                    if !t.spec_is_scenario_allowed(m.scenario) {
                        Err(InvokeError::UnsupportedScenario(m.scenario))
                    } else if self.profile == Profile::All {
                        Err(InvokeError::UnresolvedProfile)
                    } else {
                        match t.spec_cargo_subcommand(self.profile) {
                            None => Err(InvokeError::UnsupportedProfile(self.profile)),
                            Some(s) => Ok(s),
                        }
                    }
                },
            },
            None => {
                if needs_final {
                    Err(InvokeError::MissingProcessor)
                } else if self.profile == Profile::All {
                    Err(InvokeError::UnresolvedProfile)
                } else if self.profile == Profile::Doc {
                    Ok("rustdoc"@)
                } else {
                    Ok("rustc"@)
                }
            },
        }
    }

    pub fn subcommand(&self, tool: Option<PerfTool>, needs_final: bool) -> (r: Result<
        &'static str,
        InvokeError,
    >)
        ensures
            match r {
                Ok(s) => self.spec_subcommand(tool, needs_final) == Ok::<Seq<char>, InvokeError>(
                    s@,
                ),
                Err(e) => self.spec_subcommand(tool, needs_final) == Err::<Seq<char>, InvokeError>(
                    e,
                ),
            },
    {
        match &self.processor_etc {
            Some(m) => match tool {
                None => Err(InvokeError::MissingProcessor),
                Some(t) => {
                    if !t.is_scenario_allowed(m.scenario) {
                        Err(InvokeError::UnsupportedScenario(m.scenario))
                    } else if self.profile == Profile::All {
                        Err(InvokeError::UnresolvedProfile)
                    } else {
                        match t.cargo_subcommand(self.profile) {
                            None => Err(InvokeError::UnsupportedProfile(self.profile)),
                            Some(s) => Ok(s),
                        }
                    }
                },
            },
            None => {
                if needs_final {
                    Err(InvokeError::MissingProcessor)
                } else if self.profile == Profile::All {
                    Err(InvokeError::UnresolvedProfile)
                } else if self.profile == Profile::Doc {
                    Ok("rustdoc")
                } else {
                    Ok("rustc")
                }
            },
        }
    }

    /// The whole invocation: the subcommand and the manifest; the package;
    /// the profile; the benchmark's own cargo arguments; the request for
    /// timings; then, behind `--`, what is meant for the last compilation
    /// alone, and the incremental state. Where the last compilation is
    /// measured, the environment says that no other may be.
    pub open spec fn spec_invocation(
        &self,
        subcommand: Seq<char>,
        pkgid: Seq<char>,
        wrap: Option<Seq<char>>,
        surroundings: Surroundings,
    ) -> CommandView {
        CommandView {
            program: self.compiler.cargo@,
            cwd: self.cwd@,
            args: seq![subcommand, "--manifest-path"@, self.manifest_path@] + seq!["-p"@, pkgid]
                + profile_args(self.profile) + texts(self.cargo_args@) + timing_args(
                surroundings.record_timing,
            ) + seq!["--"@] + wrap_args(wrap, texts(self.rustc_args@)) + incremental_args(
                self.incremental,
                surroundings.incremental_dir@,
            ),
            envs: self.spec_base_env(surroundings.shims) + (if wrap.is_some() {
                seq![("EXPECT_ONLY_WRAPPED_RUSTC"@, "1"@)]
            } else {
                Seq::empty()
            }),
        }
    }

    pub fn invocation(
        &self,
        subcommand: &str,
        pkgid: &str,
        wrap: Option<&str>,
        surroundings: &Surroundings,
    ) -> (r: CommandSpec)
        ensures
            r@ == self.spec_invocation(
                subcommand@,
                pkgid@,
                match wrap {
                    Some(w) => Some(w@),
                    None => None,
                },
                *surroundings,
            ),
    {
        let base = self.base_command(self.cwd.as_str(), subcommand, &surroundings.shims);
        let CommandSpec { program, cwd, args, envs } = base;
        let mut args = args;
        let mut envs = envs;
        push_package(&mut args, pkgid);
        push_profile_args(&mut args, self.profile);
        extend_texts(&mut args, &self.cargo_args);
        push_timing_args(&mut args, surroundings.record_timing);
        push_separator(&mut args);
        // The marker is no flag of the compiler. The shim takes it out, with
        // its argument, and runs the compiler under the tool. Cargo hands
        // what follows `--` to the last compilation only, which is the one
        // to measure. Where nothing is measured there is no point in waiting
        // for that compilation: the shim ends it at once.
        push_wrap_args(&mut args, wrap, &self.rustc_args);
        push_wrap_env(&mut envs, wrap.is_some());
        push_incremental_args(&mut args, self.incremental, surroundings.incremental_dir.as_str());
        CommandSpec { program, cwd, args, envs }
    }
}

fn push_package(args: &mut Vec<String>, pkgid: &str)
    ensures
        texts(final(args)@) == texts(old(args)@) + seq!["-p"@, pkgid@],
{
    push_text(args, "-p");
    push_text(args, pkgid);
    proof {
        assert(texts(args@) =~= texts(old(args)@) + seq!["-p"@, pkgid@]);
    }
}

fn push_profile_args(args: &mut Vec<String>, profile: Profile)
    ensures
        texts(final(args)@) == texts(old(args)@) + profile_args(profile),
{
    match profile {
        Profile::Check => {
            push_text(args, "--profile");
            push_text(args, "check");
        },
        Profile::Opt => {
            push_text(args, "--release");
        },
        _ => {},
    }
    proof {
        assert(texts(args@) =~= texts(old(args)@) + profile_args(profile));
    }
}

fn push_timing_args(args: &mut Vec<String>, record_timing: bool)
    ensures
        texts(final(args)@) == texts(old(args)@) + timing_args(record_timing),
{
    if record_timing {
        push_text(args, "-Zunstable-options");
        push_text(args, "-Ztimings");
    }
    proof {
        assert(texts(args@) =~= texts(old(args)@) + timing_args(record_timing));
    }
}

fn push_separator(args: &mut Vec<String>)
    ensures
        texts(final(args)@) == texts(old(args)@) + seq!["--"@],
{
    push_text(args, "--");
    proof {
        assert(texts(args@) =~= texts(old(args)@) + seq!["--"@]);
    }
}

fn push_wrap_args(args: &mut Vec<String>, wrap: Option<&str>, rustc_args: &Vec<String>)
    ensures
        texts(final(args)@) == texts(old(args)@) + wrap_args(
            match wrap {
                Some(w) => Some(w@),
                None => None,
            },
            texts(rustc_args@),
        ),
{
    match wrap {
        Some(tool) => {
            push_text(args, "--wrap-rustc-with");
            push_text(args, tool);
            extend_texts(args, rustc_args);
            proof {
                assert(texts(args@) =~= texts(old(args)@) + (seq!["--wrap-rustc-with"@, tool@]
                    + texts(rustc_args@)));
            }
        },
        None => {
            push_text(args, "--skip-this-rustc");
            proof {
                assert(texts(args@) =~= texts(old(args)@) + seq!["--skip-this-rustc"@]);
            }
        },
    }
}

fn push_wrap_env(envs: &mut Vec<(String, String)>, wrapped: bool)
    ensures
        text_pairs(final(envs)@) == text_pairs(old(envs)@) + (if wrapped {
            seq![("EXPECT_ONLY_WRAPPED_RUSTC"@, "1"@)]
        } else {
            Seq::empty()
        }),
{
    if wrapped {
        push_pair(envs, "EXPECT_ONLY_WRAPPED_RUSTC", "1");
        proof {
            assert(text_pairs(envs@) =~= text_pairs(old(envs)@) + seq![
                ("EXPECT_ONLY_WRAPPED_RUSTC"@, "1"@),
            ]);
        }
    } else {
        proof {
            assert(text_pairs(envs@) =~= text_pairs(old(envs)@) + Seq::<
                (Seq<char>, Seq<char>),
            >::empty());
        }
    }
}

fn push_incremental_args(args: &mut Vec<String>, incremental: bool, dir: &str)
    ensures
        texts(final(args)@) == texts(old(args)@) + incremental_args(incremental, dir@),
{
    if incremental {
        push_text(args, "-C");
        let mut incr_arg: String = "incremental=".to_owned();
        incr_arg.append(dir);
        push_text(args, incr_arg.as_str());
    }
    proof {
        assert(texts(args@) =~= texts(old(args)@) + incremental_args(incremental, dir@));
    }
}

/// The package id in what cargo printed: the output without the white space
/// around it.
pub fn package_id(stdout: &str) -> (r: String)
    ensures
        r@ == trim(stdout@),
{
    let text = chars_of(stdout);
    string_from(trim_chars(text.as_slice()))
}

/// Where an invocation stands.
#[derive(Clone, Copy, Debug, PartialEq, Eq, Structural)]
pub enum Phase {
    /// An attempt can begin.
    Ready,
    /// Cargo was asked for the package id.
    PackageId,
    /// The invocation is running.
    Running,
    /// The output is with the processor.
    Processing,
    /// The output was accepted, or there was nobody to hand it to.
    Done,
    /// The invocation was given up.
    Failed,
}

/// What the caller reports to an invocation.
#[derive(Clone, Debug, PartialEq, Eq)]
pub enum RunEvent {
    /// An attempt begins. With a measurement attached, this is the tool that
    /// the processor uses now.
    Begin(Option<PerfTool>),
    /// Cargo printed this when asked for the package id.
    PackageId(String),
    /// The invocation has ended with success.
    Exited,
    /// The processor has dealt with the output.
    Verdict(Retry),
    /// What was asked for last could not be done: a command did not end with
    /// success, or the benchmark could not be touched.
    Failed,
}

/// What the caller does next for an invocation.
#[derive(Clone, Debug, PartialEq, Eq)]
pub enum RunAction {
    /// Run this, and report what it prints as the package id.
    QueryPackageId(CommandSpec),
    /// Touch the target, if there is one; then run the command, and report
    /// that it has ended.
    Run { touch: Option<TouchTarget>, command: CommandSpec },
    /// Hand the output to the processor under this description, and report
    /// its verdict.
    Process(ProcessOutputData),
    /// Begin another attempt.
    Again,
    /// Nothing: the invocation is over.
    Done,
    /// Nothing: the invocation cannot be made.
    Fail(InvokeError),
}

/// What a `RunAction` stands for in contracts.
pub enum ActionView {
    QueryPackageId(CommandView),
    Run { touch: Option<TouchView>, command: CommandView },
    Process(ContextView),
    Again,
    Done,
    Fail(InvokeError),
}

impl View for RunAction {
    type V = ActionView;

    open spec fn view(&self) -> ActionView {
        match self {
            RunAction::QueryPackageId(c) => ActionView::QueryPackageId(c@),
            RunAction::Run { touch, command } => ActionView::Run {
                touch: match touch {
                    Some(t) => Some(t@),
                    None => None,
                },
                command: command@,
            },
            RunAction::Process(d) => ActionView::Process(d@),
            RunAction::Again => ActionView::Again,
            RunAction::Done => ActionView::Done,
            RunAction::Fail(e) => ActionView::Fail(*e),
        }
    }
}

/// One invocation under way: it is attempted until its output is accepted.
pub struct RunRustc {
    pub process: CargoProcess,
    /// Whether the last compilation is run and measured, or skipped.
    pub needs_final: bool,
    pub surroundings: Surroundings,
    pub phase: Phase,
    /// The tool of the attempt under way.
    pub tool: Option<PerfTool>,
    /// The cargo subcommand of the attempt under way.
    pub subcommand: Option<&'static str>,
}

/// The view of a subcommand that may be missing.
pub open spec fn subcommand_of(s: Option<&'static str>) -> Option<Seq<char>> {
    match s {
        Some(s) => Some(s@),
        None => None,
    }
}

impl RunRustc {
    /// What the processor is told about the invocation whose output it gets.
    pub open spec fn spec_context(&self) -> Option<ContextView> {
        match self.process.processor_etc {
            Some(m) => Some(
                ContextView {
                    name: self.process.processor_name.0@,
                    cwd: self.process.cwd@,
                    profile: self.process.profile,
                    scenario: m.scenario,
                    scenario_str: m.scenario_str@,
                    patch: patch_of(m.patch),
                },
            ),
            None => None,
        }
    }

    /// The name of the tool that the last compilation runs under, where it
    /// is measured.
    pub open spec fn spec_wrap(&self) -> Option<Seq<char>> {
        if self.needs_final {
            match self.tool {
                Some(t) => Some(t.spec_name()),
                None => None,
            }
        } else {
            None
        }
    }

    /// What the caller does next, given what it reports.
    ///
    /// An attempt begins with the subcommand, which fails where the tool
    /// cannot measure what is asked. Then cargo is asked for the package id,
    /// and the invocation is run with it; where the last compilation is
    /// measured, the benchmark is touched first. Without a measurement
    /// attached that is all. With one, the output goes to the processor,
    /// which accepts it or asks for another attempt. Anything reported out of
    /// turn fails the invocation, and so does the report of a failure: after
    /// it nothing is run.
    pub open spec fn next_action(&self, event: RunEvent) -> ActionView {
        match (self.phase, event) {
            (_, RunEvent::Failed) => ActionView::Fail(InvokeError::CommandFailed),
            (Phase::Ready, RunEvent::Begin(tool)) => match self.process.spec_subcommand(
                tool,
                self.needs_final,
            ) {
                Ok(_) => ActionView::QueryPackageId(
                    self.process.spec_base_command(
                        self.process.cwd@,
                        "pkgid"@,
                        self.surroundings.shims,
                    ),
                ),
                Err(e) => ActionView::Fail(e),
            },
            (Phase::PackageId, RunEvent::PackageId(out)) => {
                if self.subcommand.is_none() {
                    ActionView::Fail(InvokeError::UnexpectedEvent)
                } else if self.needs_final && self.tool.is_none() {
                    ActionView::Fail(InvokeError::MissingProcessor)
                } else {
                    ActionView::Run {
                        touch: if self.needs_final {
                            Some(self.process.spec_touch_target())
                        } else {
                            None
                        },
                        command: self.process.spec_invocation(
                            self.subcommand.unwrap()@,
                            trim(out@),
                            self.spec_wrap(),
                            self.surroundings,
                        ),
                    }
                }
            },
            (Phase::Running, RunEvent::Exited) => match self.spec_context() {
                Some(c) => ActionView::Process(c),
                None => ActionView::Done,
            },
            (Phase::Processing, RunEvent::Verdict(Retry::No)) => ActionView::Done,
            (Phase::Processing, RunEvent::Verdict(Retry::Yes)) => ActionView::Again,
            _ => ActionView::Fail(InvokeError::UnexpectedEvent),
        }
    }

    /// Where the invocation stands after the caller's report.
    pub open spec fn next_phase(&self, event: RunEvent) -> Phase {
        match self.next_action(event) {
            ActionView::QueryPackageId(_) => Phase::PackageId,
            ActionView::Run { .. } => Phase::Running,
            ActionView::Process(_) => Phase::Processing,
            ActionView::Again => Phase::Ready,
            ActionView::Done => Phase::Done,
            ActionView::Fail(_) => Phase::Failed,
        }
    }

    /// The tool of the attempt under way after the caller's report: the one
    /// that a new attempt began with, where a measurement is attached.
    pub open spec fn next_tool(&self, event: RunEvent) -> Option<PerfTool> {
        match (self.next_action(event), event) {
            (ActionView::QueryPackageId(_), RunEvent::Begin(tool)) => {
                if self.process.processor_etc.is_some() {
                    tool
                } else {
                    None
                }
            },
            _ => self.tool,
        }
    }

    /// The subcommand of the attempt under way after the caller's report.
    pub open spec fn next_subcommand(&self, event: RunEvent) -> Option<Seq<char>> {
        match (self.next_action(event), event) {
            (ActionView::QueryPackageId(_), RunEvent::Begin(tool)) => {
                match self.process.spec_subcommand(tool, self.needs_final) {
                    Ok(s) => Some(s),
                    Err(_) => None,
                }
            },
            _ => subcommand_of(self.subcommand),
        }
    }

    /// What holds of an invocation that was begun anew and advanced since:
    /// while cargo is asked for the package id, the subcommand of the attempt
    /// is known, and so is the tool where the last compilation is measured;
    /// and output is only with the processor where a measurement is attached.
    pub open spec fn wf(&self) -> bool {
        &&& self.phase == Phase::PackageId ==> self.subcommand.is_some()
        &&& self.phase == Phase::PackageId && self.needs_final ==> self.tool.is_some()
        &&& self.phase == Phase::Processing ==> self.process.processor_etc.is_some()
    }

    /// An invocation of which no attempt has begun.
    pub fn new(process: CargoProcess, needs_final: bool, surroundings: Surroundings) -> (r:
        RunRustc)
        ensures
            r.wf(),
            r.process == process,
            r.needs_final == needs_final,
            r.surroundings == surroundings,
            r.phase == Phase::Ready,
            r.tool.is_none(),
            r.subcommand.is_none(),
    {
        RunRustc {
            process,
            needs_final,
            surroundings,
            phase: Phase::Ready,
            tool: None,
            subcommand: None,
        }
    }

    /// Takes the caller's report and says what to do next.
    pub fn advance(&mut self, event: RunEvent) -> (r: RunAction)
        ensures
            r@ == old(self).next_action(event),
            final(self).phase == old(self).next_phase(event),
            final(self).process == old(self).process,
            final(self).needs_final == old(self).needs_final,
            final(self).surroundings == old(self).surroundings,
            final(self).tool == old(self).next_tool(event),
            subcommand_of(final(self).subcommand) == old(self).next_subcommand(event),
            old(self).wf() ==> final(self).wf(),
    {
        let action = match (self.phase, event) {
            (_, RunEvent::Failed) => RunAction::Fail(InvokeError::CommandFailed),
            (Phase::Ready, RunEvent::Begin(tool)) => {
                match self.process.subcommand(tool, self.needs_final) {
                    Ok(sub) => {
                        self.subcommand = Some(sub);
                        self.tool =
                        if self.process.processor_etc.is_some() {
                            tool
                        } else {
                            None
                        };
                        RunAction::QueryPackageId(
                            self.process.get_pkgid(
                                self.process.cwd.as_str(),
                                &self.surroundings.shims,
                            ),
                        )
                    },
                    Err(e) => RunAction::Fail(e),
                }
            },
            (Phase::PackageId, RunEvent::PackageId(out)) => {
                match self.subcommand {
                    None => RunAction::Fail(InvokeError::UnexpectedEvent),
                    Some(sub) => {
                        let pkgid = package_id(out.as_str());
                        if self.needs_final {
                            match self.tool {
                                None => RunAction::Fail(InvokeError::MissingProcessor),
                                Some(t) => {
                                    let name = t.name();
                                    RunAction::Run {
                                        touch: Some(self.process.touch_target()),
                                        command: self.process.invocation(
                                            sub,
                                            pkgid.as_str(),
                                            Some(name.as_str()),
                                            &self.surroundings,
                                        ),
                                    }
                                },
                            }
                        } else {
                            RunAction::Run {
                                touch: None,
                                command: self.process.invocation(
                                    sub,
                                    pkgid.as_str(),
                                    None,
                                    &self.surroundings,
                                ),
                            }
                        }
                    },
                }
            },
            (Phase::Running, RunEvent::Exited) => {
                match &self.process.processor_etc {
                    Some(m) => RunAction::Process(
                        ProcessOutputData {
                            name: BenchmarkName(self.process.processor_name.0.clone()),
                            cwd: self.process.cwd.clone(),
                            profile: self.process.profile,
                            scenario: m.scenario,
                            scenario_str: m.scenario_str.clone(),
                            patch: match &m.patch {
                                Some(p) => Some(p.duplicate()),
                                None => None,
                            },
                        },
                    ),
                    None => RunAction::Done,
                }
            },
            (Phase::Processing, RunEvent::Verdict(Retry::No)) => RunAction::Done,
            (Phase::Processing, RunEvent::Verdict(Retry::Yes)) => RunAction::Again,
            _ => RunAction::Fail(InvokeError::UnexpectedEvent),
        };
        self.phase =
        match &action {
            RunAction::QueryPackageId(_) => Phase::PackageId,
            RunAction::Run { .. } => Phase::Running,
            RunAction::Process(_) => Phase::Processing,
            RunAction::Again => Phase::Ready,
            RunAction::Done => Phase::Done,
            RunAction::Fail(_) => Phase::Failed,
        };
        action
    }
}

/// A tool that cannot measure the scenario or the profile of an invocation
/// stops it before anything is run: the attempt fails at its beginning, and
/// an invocation that has failed hands out nothing but the failure.
pub proof fn lemma_incapable_tool_runs_nothing(m: RunRustc, tool: PerfTool, later: RunEvent)
    requires
        m.phase == Phase::Ready,
        m.process.processor_etc.is_some(),
        !tool.spec_is_scenario_allowed(m.process.processor_etc.unwrap().scenario)
            || tool.spec_cargo_subcommand(m.process.profile).is_none(),
    ensures
        m.next_action(RunEvent::Begin(Some(tool))) is Fail,
        m.next_phase(RunEvent::Begin(Some(tool))) == Phase::Failed,
        (RunRustc { phase: Phase::Failed, ..m }).next_action(later) is Fail,
        (RunRustc { phase: Phase::Failed, ..m }).next_phase(later) == Phase::Failed,
{
}

/// Once cargo has told the package id, the invocation is run: nothing that
/// could stop it is left to find out.
pub proof fn lemma_package_id_runs(m: RunRustc, out: String)
    requires
        m.wf(),
        m.phase == Phase::PackageId,
    ensures
        m.next_action(RunEvent::PackageId(out)) is Run,
        m.next_phase(RunEvent::PackageId(out)) == Phase::Running,
{
}

/// The invocation is run once for each attempt, and an attempt follows
/// another exactly where the processor asks for it: after its verdict the
/// invocation is ready again, or over.
pub proof fn lemma_verdict_decides(m: RunRustc, verdict: Retry)
    requires
        m.phase == Phase::Processing,
    ensures
        m.next_phase(RunEvent::Verdict(verdict)) == if verdict == Retry::Yes {
            Phase::Ready
        } else {
            Phase::Done
        },
        m.next_action(RunEvent::Verdict(verdict)) == if verdict == Retry::Yes {
            ActionView::Again
        } else {
            ActionView::Done
        },
{
}

impl InvokeError {
    /// The error in words.
    pub open spec fn spec_message(self) -> Seq<char> {
        match self {
            InvokeError::UnsupportedScenario(s) => "this perf tool doesn't support "@
                + s.spec_name() + " scenarios"@,
            InvokeError::UnsupportedProfile(p) => "this perf tool doesn't support the "@
                + p.spec_name() + " profile"@,
            InvokeError::UnresolvedProfile => "the profile `All` cannot be built"@,
            InvokeError::MissingProcessor => "measuring the last compilation needs a processor"@,
            InvokeError::UnexpectedEvent => "the invocation was not waiting for this"@,
            InvokeError::CommandFailed => "a command of the invocation failed"@,
        }
    }

    pub fn message(&self) -> (r: String)
        ensures
            r@ == self.spec_message(),
    {
        match self {
            InvokeError::UnsupportedScenario(s) => concat3(
                "this perf tool doesn't support ",
                s.name(),
                " scenarios",
            ),
            InvokeError::UnsupportedProfile(p) => concat3(
                "this perf tool doesn't support the ",
                p.name(),
                " profile",
            ),
            InvokeError::UnresolvedProfile => "the profile `All` cannot be built".to_owned(),
            InvokeError::MissingProcessor => "measuring the last compilation needs a processor".to_owned(),
            InvokeError::UnexpectedEvent => "the invocation was not waiting for this".to_owned(),
            InvokeError::CommandFailed => "a command of the invocation failed".to_owned(),
        }
    }
}

/// What the caller reports to an invocation that deals with its processor
/// itself.
#[derive(Clone, Debug, PartialEq, Eq)]
pub enum RunReport {
    /// Nothing yet: the invocation begins.
    Start,
    /// Cargo printed this when asked for the package id.
    PackageId(String),
    /// The invocation has ended with success, and this was captured of it.
    Exited(Output),
    /// What was asked for last could not be done: a command did not end with
    /// success, or the benchmark could not be touched.
    Failed,
}

/// Why an invocation ended without its output being accepted.
#[derive(Clone, Debug, PartialEq, Eq)]
pub enum RunError {
    /// The invocation could not be made.
    Invoke(InvokeError),
    /// The processor could not deal with the output.
    Processor(ProcessError),
}

/// What the caller does next for an invocation that deals with its processor
/// itself.
#[derive(Clone, Debug, PartialEq, Eq)]
pub enum RunRequest {
    /// Run this, and report what it prints as the package id.
    QueryPackageId(CommandSpec),
    /// Touch the target, if there is one; then run the command, and report
    /// what was captured of it.
    Run { touch: Option<TouchTarget>, command: CommandSpec },
    /// Nothing: the invocation is over.
    Done,
    /// Nothing: the invocation has failed.
    Fail(RunError),
}

/// What a `RunError` stands for in contracts.
pub enum RunErrorView {
    Invoke(InvokeError),
    Processor(Seq<char>),
}

/// What a `RunRequest` stands for in contracts.
pub enum RequestView {
    QueryPackageId(CommandView),
    Run { touch: Option<TouchView>, command: CommandView },
    Done,
    Fail(RunErrorView),
}

impl View for RunRequest {
    type V = RequestView;

    open spec fn view(&self) -> RequestView {
        match self {
            RunRequest::QueryPackageId(c) => RequestView::QueryPackageId(c@),
            RunRequest::Run { touch, command } => RequestView::Run {
                touch: match touch {
                    Some(t) => Some(t@),
                    None => None,
                },
                command: command@,
            },
            RunRequest::Done => RequestView::Done,
            RunRequest::Fail(RunError::Invoke(e)) => RequestView::Fail(RunErrorView::Invoke(*e)),
            RunRequest::Fail(RunError::Processor(e)) => RequestView::Fail(
                RunErrorView::Processor(e.message@),
            ),
        }
    }
}

/// What is left to the caller of an action once the processor is dealt
/// with: the commands to run, and the end.
pub open spec fn request_of(action: ActionView) -> RequestView {
    match action {
        ActionView::QueryPackageId(c) => RequestView::QueryPackageId(c),
        ActionView::Run { touch, command } => RequestView::Run { touch, command },
        ActionView::Done => RequestView::Done,
        ActionView::Fail(e) => RequestView::Fail(RunErrorView::Invoke(e)),
        _ => RequestView::Fail(RunErrorView::Invoke(InvokeError::UnexpectedEvent)),
    }
}

fn request(action: RunAction) -> (r: RunRequest)
    ensures
        r@ == request_of(action@),
{
    match action {
        RunAction::QueryPackageId(c) => RunRequest::QueryPackageId(c),
        RunAction::Run { touch, command } => RunRequest::Run { touch, command },
        RunAction::Done => RunRequest::Done,
        RunAction::Fail(e) => RunRequest::Fail(RunError::Invoke(e)),
        _ => RunRequest::Fail(RunError::Invoke(InvokeError::UnexpectedEvent)),
    }
}

impl RunRustc {
    /// Whether the two are one invocation at two moments.
    pub open spec fn same_invocation(&self, other: &RunRustc) -> bool {
        &&& self.process == other.process
        &&& self.needs_final == other.needs_final
        &&& self.surroundings == other.surroundings
    }

    /// What the caller does at the beginning of an attempt, where the
    /// processor uses `tool`.
    pub open spec fn begun_with(&self, tool: PerfTool) -> RequestView {
        request_of(
            self.next_action(
                RunEvent::Begin(
                    if self.process.processor_etc.is_some() {
                        Some(tool)
                    } else {
                        None
                    },
                ),
            ),
        )
    }

    /// The invocation ready for another attempt.
    pub open spec fn ready_again(self) -> RunRustc {
        RunRustc { phase: Phase::Ready, ..self }
    }

    fn begin<P: Processor + ?Sized>(&mut self, processor: &P) -> (r: RunRequest)
        ensures
            final(self).same_invocation(old(self)),
            r@ == old(self).begun_with(processor.spec_perf_tool()),
            final(self).phase == old(self).next_phase(
                RunEvent::Begin(
                    if old(self).process.processor_etc.is_some() {
                        Some(processor.spec_perf_tool())
                    } else {
                        None
                    },
                ),
            ),
            old(self).wf() ==> final(self).wf(),
    {
        let tool = processor.perf_tool();
        let asked = if self.process.processor_etc.is_some() {
            Some(tool)
        } else {
            None
        };
        request(self.advance(RunEvent::Begin(asked)))
    }

    /// What the processor's answer means for the invocation, where it was
    /// handed the output. An error of the processor ends the invocation with
    /// that error: nothing is run again. Output that the processor accepts
    /// ends the invocation too. Where the processor asks for another
    /// attempt, nothing is handed back: the attempt is to begin, with the
    /// tool that the processor uses then.
    pub fn settle(&mut self, answer: Result<Retry, ProcessError>) -> (r: Option<RunRequest>)
        ensures
            final(self).same_invocation(old(self)),
            final(self).tool == old(self).tool,
            subcommand_of(final(self).subcommand) == subcommand_of(old(self).subcommand),
            match answer {
                Err(e) => r.is_some() && r.unwrap()@ == RequestView::Fail(
                    RunErrorView::Processor(e.message@),
                ) && final(self).phase == Phase::Failed,
                Ok(verdict) => final(self).phase == old(self).next_phase(
                    RunEvent::Verdict(verdict),
                ) && match old(self).next_action(RunEvent::Verdict(verdict)) {
                    ActionView::Again => r.is_none(),
                    other => r.is_some() && r.unwrap()@ == request_of(other),
                },
            },
            old(self).wf() ==> final(self).wf(),
    {
        match answer {
            Ok(verdict) => {
                match self.advance(RunEvent::Verdict(verdict)) {
                    RunAction::Again => None,
                    other => Some(request(other)),
                }
            },
            Err(e) => {
                self.phase = Phase::Failed;
                Some(RunRequest::Fail(RunError::Processor(e)))
            },
        }
    }

    /// Takes the caller's report and says what to do next, dealing with the
    /// processor on the way. An attempt begins with the tool that the
    /// processor uses at that moment. The output of the invocation goes to
    /// the processor, and its answer is settled: where it accepts the
    /// output, the invocation is over; where it asks for another attempt,
    /// that attempt begins at once, with the tool that the processor uses
    /// after its answer; where it fails, the invocation fails with it.
    pub fn advance_with<P: Processor + ?Sized>(
        &mut self,
        processor: &mut P,
        report: RunReport,
    ) -> (r: RunRequest)
        ensures
            final(self).same_invocation(old(self)),
            match report {
                RunReport::Start => r@ == old(self).begun_with(old(processor).spec_perf_tool()),
                RunReport::PackageId(out) => r@ == request_of(
                    old(self).next_action(RunEvent::PackageId(out)),
                ) && final(self).phase == old(self).next_phase(RunEvent::PackageId(out)),
                RunReport::Failed => r@ == request_of(old(self).next_action(RunEvent::Failed))
                    && final(self).phase == Phase::Failed,
                RunReport::Exited(_) => match old(self).next_action(RunEvent::Exited) {
                    ActionView::Process(_) => {
                        ||| r@ is Done && final(self).phase == Phase::Done
                        ||| r@ matches RequestView::Fail(RunErrorView::Processor(_))
                            && final(self).phase == Phase::Failed
                        ||| r@ == old(self).ready_again().begun_with(
                            final(processor).spec_perf_tool(),
                        )
                    },
                    other => r@ == request_of(other) && final(self).phase == old(self).next_phase(
                        RunEvent::Exited,
                    ),
                },
            },
            r@ is Run ==> report is PackageId,
            old(self).wf() ==> final(self).wf(),
    {
        match report {
            RunReport::Start => self.begin(processor),
            RunReport::PackageId(out) => request(self.advance(RunEvent::PackageId(out))),
            RunReport::Failed => request(self.advance(RunEvent::Failed)),
            RunReport::Exited(output) => {
                match self.advance(RunEvent::Exited) {
                    RunAction::Process(data) => {
                        let answer = processor.process_output(&data, output);
                        match self.settle(answer) {
                            Some(next) => next,
                            None => {
                                let ghost ready = *self;
                                let next = self.begin(processor);
                                proof {
                                    assert(ready.begun_with(processor.spec_perf_tool())
                                        == old(self).ready_again().begun_with(
                                        processor.spec_perf_tool(),
                                    ));
                                }
                                next
                            },
                        }
                    },
                    other => request(other),
                }
            },
        }
    }
}

/// A failure ends the invocation, wherever it stands: the invocation fails,
/// and after that it hands out nothing but failure. Nothing is run again.
pub proof fn lemma_failure_ends_invocation(m: RunRustc, later: RunEvent)
    ensures
        m.next_action(RunEvent::Failed) == ActionView::Fail(InvokeError::CommandFailed),
        m.next_phase(RunEvent::Failed) == Phase::Failed,
        (RunRustc { phase: Phase::Failed, ..m }).next_action(later) is Fail,
        (RunRustc { phase: Phase::Failed, ..m }).next_phase(later) == Phase::Failed,
{
}

} // verus!
