//! What is done with the output of a measured invocation.

use crate::benchmark::BenchmarkName;
use crate::patch::{patch_of, Patch, PatchView};
use crate::tool::{PerfTool, Profile, Scenario};
use vstd::prelude::*;

verus! {

/// Used to indicate if we need to retry a run.
#[derive(Clone, Copy, Debug, PartialEq, Eq, Structural)]
pub enum Retry {
    No,
    Yes,
}

/// What was captured of a finished process.
#[derive(Clone, Debug, PartialEq, Eq)]
pub struct Output {
    /// Whether the process ended with success.
    pub success: bool,
    pub stdout: Vec<u8>,
    pub stderr: Vec<u8>,
}

/// The invocation whose output a processor is handed.
#[derive(Clone, Debug, PartialEq, Eq)]
pub struct ProcessOutputData {
    pub name: BenchmarkName,
    pub cwd: String,
    pub profile: Profile,
    pub scenario: Scenario,
    pub scenario_str: String,
    pub patch: Option<Patch>,
}

/// Why a processor could not deal with the output it was handed.
#[derive(Clone, Debug, PartialEq, Eq)]
pub struct ProcessError {
    pub message: String,
}

/// Trait used by the measurement of a benchmark to provide different kinds
/// of processing.
///
/// A processor measures with one tool at a time, and the tool may depend on
/// whether its first collection is under way: a processor may spend the
/// first iteration on expensive self-instrumentation and go on with cheap
/// counters.
pub trait Processor {
    /// The tool that the processor uses as it stands, as contracts speak of
    /// it.
    spec fn spec_perf_tool(&self) -> PerfTool;

    /// The `PerfTool` being used.
    fn perf_tool(&self) -> (r: PerfTool)
        ensures
            r == self.spec_perf_tool(),
    ;

    /// Process the output produced by the particular tool being used.
    fn process_output(&mut self, data: &ProcessOutputData, output: Output) -> Result<
        Retry,
        ProcessError,
    >;

    /// Provided to permit switching on more expensive profiling if it's
    /// needed for the "first" run for any given benchmark (we reuse the
    /// processor), e.g. enabling self-instrumentation.
    fn start_first_collection(&mut self) {
    }

    /// Provided to permit switching off more expensive profiling if it's
    /// needed for the "first" run, e.g. disabling self-instrumentation.
    ///
    /// Returns whether the processor goes on with another tool than the one
    /// it used during the first collection: that is when a second iteration
    /// is worth making although only one was asked for. A processor that
    /// keeps this method changes nothing and so keeps its tool.
    fn finished_first_collection(&mut self) -> (r: bool)
        ensures
            r == (final(self).spec_perf_tool() != old(self).spec_perf_tool()),
    {
        false
    }
}

/// What a `ProcessOutputData` stands for in contracts.
pub struct ContextView {
    pub name: Seq<char>,
    pub cwd: Seq<char>,
    pub profile: Profile,
    pub scenario: Scenario,
    pub scenario_str: Seq<char>,
    pub patch: Option<PatchView>,
}

impl View for ProcessOutputData {
    type V = ContextView;

    open spec fn view(&self) -> ContextView {
        ContextView {
            name: self.name.0@,
            cwd: self.cwd@,
            profile: self.profile,
            scenario: self.scenario,
            scenario_str: self.scenario_str@,
            patch: patch_of(self.patch),
        }
    }
}

impl ProcessOutputData {
    /// The directory of the generated documentation, relative to the working
    /// directory, where the invocation generates any.
    pub fn documentation_dir(&self) -> (r: Option<&'static str>)
        ensures
            r.is_some() == (self.profile == Profile::Doc),
            r matches Some(d) ==> d@ == "target/doc"@,
    {
        if self.profile == Profile::Doc {
            Some("target/doc")
        } else {
            None
        }
    }
}

} // verus!
