//! The processor that records statistics: which tool it measures with, when
//! it asks for another attempt, and what it writes to the statistics store.

use crate::benchmark::BenchmarkName;
use crate::patch::{PatchName, PatchView};
use crate::processor::ProcessOutputData;
use crate::stat_output::{DeserializeStatError, Platform, SelfProfileFiles, StatError};
use crate::stats::{
    store_artifact_sizes_into_stats, store_documentation_size_into_stats, with_artifact_sizes,
    with_documentation_size, ArtifactSize, SelfProfile, StatNumber, Stats,
};
use crate::tool::{Bencher, PerfTool, Profile, Scenario};
use crate::text::concat3;
use vstd::prelude::*;

verus! {

/// The number of the artifact under test in the statistics store.
#[derive(Clone, Copy, Debug, PartialEq, Eq, Structural)]
pub struct ArtifactIdNumber(pub u32);

/// The number of a collection, that is of one run of the collector, in the
/// statistics store.
#[derive(Clone, Copy, Debug, PartialEq, Eq, Structural)]
pub struct CollectionId(pub u32);

/// A scenario as the statistics store names it.
#[derive(Clone, Debug, PartialEq, Eq)]
pub enum StoreScenario {
    /// A full build.
    Empty,
    /// An incremental build from scratch.
    IncrementalEmpty,
    /// An incremental build with no changes.
    IncrementalFresh,
    /// An incremental build after the patch of this name.
    IncrementalPatch(PatchName),
}

/// What a `StoreScenario` stands for in contracts.
pub enum StoreScenarioView {
    Empty,
    IncrementalEmpty,
    IncrementalFresh,
    IncrementalPatch(Seq<char>),
}

impl View for StoreScenario {
    type V = StoreScenarioView;

    open spec fn view(&self) -> StoreScenarioView {
        match self {
            StoreScenario::Empty => StoreScenarioView::Empty,
            StoreScenario::IncrementalEmpty => StoreScenarioView::IncrementalEmpty,
            StoreScenario::IncrementalFresh => StoreScenarioView::IncrementalFresh,
            StoreScenario::IncrementalPatch(n) => StoreScenarioView::IncrementalPatch(n.0@),
        }
    }
}

/// Why the measuring cannot go on. None of these is worth another attempt:
/// each says that the apparatus cannot be trusted for this run.
#[derive(Clone, Debug, PartialEq, Eq)]
pub enum FatalError {
    /// Attempt after attempt printed no statistics.
    NoStatistics,
    /// The output was there and was not as it has to be.
    Stat(DeserializeStatError),
    /// The scenario stands for all scenarios: nothing can be recorded under
    /// it.
    UnresolvedScenario,
    /// The profile stands for all profiles: nothing can be recorded under
    /// it.
    UnresolvedProfile,
    /// The build after a patch does not say after which.
    MissingPatch,
}

/// What a `FatalError` stands for in contracts.
pub enum FatalView {
    NoStatistics,
    Stat(StatError),
    UnresolvedScenario,
    UnresolvedProfile,
    MissingPatch,
}

impl View for FatalError {
    type V = FatalView;

    open spec fn view(&self) -> FatalView {
        match self {
            FatalError::NoStatistics => FatalView::NoStatistics,
            FatalError::Stat(e) => FatalView::Stat(e@),
            FatalError::UnresolvedScenario => FatalView::UnresolvedScenario,
            FatalError::UnresolvedProfile => FatalView::UnresolvedProfile,
            FatalError::MissingPatch => FatalView::MissingPatch,
        }
    }
}

/// The raw self-instrumentation files to send to bulk storage.
#[derive(Clone, Debug, PartialEq, Eq)]
pub struct UploadRequest {
    pub files: SelfProfileFiles,
    /// Whether an earlier upload may still be under way. It has to end
    /// before this one begins: there is never more than one.
    pub wait_for_previous: bool,
}

/// What is written to the statistics store for one accepted invocation:
/// every statistic and every query of the self-instrumentation, under the
/// benchmark, the profile and the scenario.
#[derive(Debug)]
pub struct Recording {
    pub scenario: StoreScenario,
    pub profile: Profile,
    pub stats: Stats,
    pub self_profile: Option<SelfProfile>,
    pub upload: Option<UploadRequest>,
}

/// What the processor makes of the output of an invocation.
#[derive(Debug)]
pub enum ProcessOutcome {
    /// The output is accepted, and this is to be recorded.
    Record(Recording),
    /// The output held nothing. The invocation is to be attempted again.
    Retry,
    /// The measuring ends here.
    Fatal(FatalError),
}

/// How often a processor asks for another attempt, over all the invocations
/// it is used for.
pub open spec fn max_tries() -> u8 {
    5
}

/// The name of a scenario in the statistics store. A build after a patch is
/// named by the patch.
pub open spec fn store_scenario(scenario: Scenario, patch: Option<PatchView>) -> Result<
    StoreScenarioView,
    FatalView,
> {
    match scenario {
        Scenario::Full => Ok(StoreScenarioView::Empty),
        Scenario::IncrFull => Ok(StoreScenarioView::IncrementalEmpty),
        Scenario::IncrUnchanged => Ok(StoreScenarioView::IncrementalFresh),
        Scenario::IncrPatched => match patch {
            Some(p) => Ok(StoreScenarioView::IncrementalPatch(p.name)),
            None => Err(FatalView::MissingPatch),
        },
        Scenario::All => Err(FatalView::UnresolvedScenario),
    }
}

/// The sizes of the artifacts of a compilation that may not have reported
/// any.
pub open spec fn artifact_sizes_of(profile: Option<SelfProfile>) -> Seq<ArtifactSize> {
    match profile {
        Some(p) => p.artifact_sizes@,
        None => Seq::empty(),
    }
}

/// The statistics that are recorded: those of the output, the size of each
/// artifact that the compiler reported and, for a documentation build, the
/// size of the documentation.
pub open spec fn recorded_stats(
    stats: Map<Seq<char>, StatNumber>,
    self_profile: Option<SelfProfile>,
    profile: Profile,
    doc_size: Option<(u64, u64)>,
) -> Map<Seq<char>, StatNumber> {
    with_documentation_size(
        with_artifact_sizes(stats, artifact_sizes_of(self_profile)),
        if profile == Profile::Doc {
            doc_size
        } else {
            None
        },
    )
}

/// The state of the processor that records statistics.
#[derive(Clone, Debug, PartialEq, Eq)]
pub struct BenchProcessor {
    pub benchmark: BenchmarkName,
    pub artifact_row_id: ArtifactIdNumber,
    pub platform: Platform,
    /// Whether an upload was begun and not yet waited for.
    pub uploading: bool,
    pub is_first_collection: bool,
    pub is_self_profile: bool,
    /// How many attempts were asked for so far.
    pub tries: u8,
}

impl BenchProcessor {
    pub fn new(
        benchmark: BenchmarkName,
        artifact_row_id: ArtifactIdNumber,
        platform: Platform,
        is_self_profile: bool,
    ) -> (r: BenchProcessor)
        ensures
            r == (BenchProcessor {
                benchmark,
                artifact_row_id,
                platform,
                uploading: false,
                is_first_collection: true,
                is_self_profile,
                tries: 0,
            }),
    {
        BenchProcessor {
            benchmark,
            artifact_row_id,
            platform,
            uploading: false,
            is_first_collection: true,
            is_self_profile,
            tries: 0,
        }
    }

    /// The tool in use: the counters of the platform, together with the
    /// compiler's self-instrumentation during the first collection where
    /// that is wanted.
    pub open spec fn spec_perf_tool(&self) -> PerfTool {
        if self.is_first_collection && self.is_self_profile {
            match self.platform {
                Platform::Unix => PerfTool::BenchTool(Bencher::PerfStatSelfProfile),
                Platform::Windows => PerfTool::BenchTool(Bencher::XperfStatSelfProfile),
            }
        } else {
            match self.platform {
                Platform::Unix => PerfTool::BenchTool(Bencher::PerfStat),
                Platform::Windows => PerfTool::BenchTool(Bencher::XperfStat),
            }
        }
    }

    pub fn perf_tool(&self) -> (r: PerfTool)
        ensures
            r == self.spec_perf_tool(),
    {
        if self.is_first_collection && self.is_self_profile {
            match self.platform {
                Platform::Unix => PerfTool::BenchTool(Bencher::PerfStatSelfProfile),
                Platform::Windows => PerfTool::BenchTool(Bencher::XperfStatSelfProfile),
            }
        } else {
            match self.platform {
                Platform::Unix => PerfTool::BenchTool(Bencher::PerfStat),
                Platform::Windows => PerfTool::BenchTool(Bencher::XperfStat),
            }
        }
    }

    pub fn start_first_collection(&mut self)
        ensures
            *final(self) == (BenchProcessor { is_first_collection: true, ..*old(self) }),
    {
        self.is_first_collection = true;
    }

    /// Ends the first collection, and says whether the tool in use is
    /// another one from now on.
    pub fn finished_first_collection(&mut self) -> (r: bool)
        ensures
            *final(self) == (BenchProcessor { is_first_collection: false, ..*old(self) }),
            r == (final(self).spec_perf_tool() != old(self).spec_perf_tool()),
            r == (old(self).is_first_collection && old(self).is_self_profile),
    {
        let before = self.perf_tool();
        self.is_first_collection = false;
        // We need to run again if we're going to use a different perf tool
        self.perf_tool() != before
    }

    /// The processor after output that held nothing, and whether it asks for
    /// another attempt: it does while it has asked fewer than `max_tries()`
    /// times, and counts each time.
    pub open spec fn on_no_output(self) -> (BenchProcessor, bool) {
        if self.tries < max_tries() {
            (BenchProcessor { tries: (self.tries + 1) as u8, ..self }, true)
        } else {
            (self, false)
        }
    }

    /// The number of attempts that a processor sees through when each of
    /// them prints nothing: the last of them is the one it does not ask to
    /// repeat.
    pub open spec fn attempts_without_output(self) -> nat
        decreases max_tries() - self.tries,
    {
        if self.on_no_output().1 {
            1 + self.on_no_output().0.attempts_without_output()
        } else {
            1
        }
    }

    /// What is recorded for an accepted invocation. The raw
    /// self-instrumentation files are sent to bulk storage where there are
    /// any and the caller has that switched on.
    pub fn insert_stats(
        &mut self,
        scenario: StoreScenario,
        profile: Profile,
        stats: (Stats, Option<SelfProfile>, Option<SelfProfileFiles>),
        upload_enabled: bool,
    ) -> (r: Result<Recording, FatalError>)
        ensures
            match r {
                Ok(rec) => profile != Profile::All && rec.scenario == scenario && rec.profile
                    == profile && rec.stats == stats.0 && rec.self_profile == stats.1 && rec.upload
                    == (match stats.2 {
                    Some(files) if upload_enabled => Some(
                        UploadRequest { files, wait_for_previous: old(self).uploading },
                    ),
                    _ => None,
                }) && *final(self) == (BenchProcessor {
                    uploading: old(self).uploading || rec.upload.is_some(),
                    ..*old(self)
                }),
                Err(e) => profile == Profile::All && e@ == FatalView::UnresolvedProfile && *final(self) == *old(self),
            },
    {
        if profile == Profile::All {
            return Err(FatalError::UnresolvedProfile);
        }
        let (stats, self_profile, files) = stats;
        let upload = match files {
            Some(files) => {
                if upload_enabled {
                    // We can afford to have the uploads run concurrently
                    // with the compiler: they take up almost no CPU time.
                    let wait_for_previous = self.uploading;
                    self.uploading = true;
                    Some(UploadRequest { files, wait_for_previous })
                } else {
                    None
                }
            },
            None => None,
        };
        Ok(Recording { scenario, profile, stats, self_profile, upload })
    }

    /// Deals with the output of an invocation, given what reading it gave.
    /// Statistics are recorded. Output that holds nothing is put down to a
    /// race with the measurement tool, and the invocation is attempted again,
    /// `max_tries()` times in all for this processor. Output that is there
    /// and wrong ends the measuring at once.
    pub fn process_output(
        &mut self,
        data: &ProcessOutputData,
        parsed: Result<(Stats, Option<SelfProfile>, Option<SelfProfileFiles>), DeserializeStatError>,
        doc_size: Option<(u64, u64)>,
        upload_enabled: bool,
    ) -> (r: ProcessOutcome)
        ensures
            match parsed {
                Ok((stats, self_profile, files)) => match store_scenario(
                    data.scenario,
                    data@.patch,
                ) {
                    Err(f) => r matches ProcessOutcome::Fatal(e) && e@ == f && *final(self) == *old(self),
                    Ok(sc) => if data.profile == Profile::All {
                        r matches ProcessOutcome::Fatal(e) && e@ == FatalView::UnresolvedProfile
                            && *final(self) == *old(self)
                    } else {
                        r matches ProcessOutcome::Record(rec) && rec.scenario@ == sc && rec.profile
                            == data.profile && rec.stats@ == recorded_stats(
                            stats@,
                            self_profile,
                            data.profile,
                            doc_size,
                        ) && rec.self_profile == self_profile && rec.upload == (match files {
                            Some(files) if upload_enabled => Some(
                                UploadRequest { files, wait_for_previous: old(self).uploading },
                            ),
                            _ => None,
                        }) && *final(self) == (BenchProcessor {
                            uploading: old(self).uploading || rec.upload.is_some(),
                            ..*old(self)
                        })
                    },
                },
                Err(e) => if e@ == StatError::NoOutput {
                    *final(self) == old(self).on_no_output().0 && if old(self).on_no_output().1 {
                        r is Retry
                    } else {
                        r matches ProcessOutcome::Fatal(f) && f@ == FatalView::NoStatistics
                    }
                } else {
                    r matches ProcessOutcome::Fatal(f) && f@ == FatalView::Stat(e@) && *final(self)
                        == *old(self)
                },
            },
    {
        match parsed {
            Ok(res) => {
                let (mut stats, self_profile, files) = res;
                match &self_profile {
                    Some(profile) => {
                        store_artifact_sizes_into_stats(&mut stats, profile);
                    },
                    None => {},
                }
                if data.documentation_dir().is_some() {
                    store_documentation_size_into_stats(&mut stats, doc_size);
                }
                let scenario = match data.scenario {
                    Scenario::Full => StoreScenario::Empty,
                    Scenario::IncrFull => StoreScenario::IncrementalEmpty,
                    Scenario::IncrUnchanged => StoreScenario::IncrementalFresh,
                    Scenario::IncrPatched => match &data.patch {
                        Some(patch) => StoreScenario::IncrementalPatch(
                            PatchName(patch.name.0.clone()),
                        ),
                        None => {
                            return ProcessOutcome::Fatal(FatalError::MissingPatch);
                        },
                    },
                    Scenario::All => {
                        return ProcessOutcome::Fatal(FatalError::UnresolvedScenario);
                    },
                };
                match self.insert_stats(
                    scenario,
                    data.profile,
                    (stats, self_profile, files),
                    upload_enabled,
                ) {
                    Ok(rec) => ProcessOutcome::Record(rec),
                    Err(e) => ProcessOutcome::Fatal(e),
                }
            },
            Err(e) => {
                if e.is_transient() {
                    if self.tries < 5 {
                        self.tries += 1;
                        ProcessOutcome::Retry
                    } else {
                        ProcessOutcome::Fatal(FatalError::NoStatistics)
                    }
                } else {
                    ProcessOutcome::Fatal(FatalError::Stat(e))
                }
            },
        }
    }
}

/// An invocation that never prints anything is attempted once and then once
/// more for each try that the processor has left: six times in all with a
/// fresh processor. After that the measuring ends.
pub proof fn lemma_attempts_without_output(p: BenchProcessor)
    requires
        p.tries <= max_tries(),
    ensures
        p.attempts_without_output() == max_tries() - p.tries + 1,
        p.tries == 0 ==> p.attempts_without_output() == 6,
    decreases max_tries() - p.tries,
{
    if p.tries < max_tries() {
        lemma_attempts_without_output(p.on_no_output().0);
    }
}

impl FatalError {
    /// The error in words.
    pub open spec fn spec_message(self) -> Seq<char> {
        match self {
            FatalError::NoStatistics => "failed to collect statistics after 5 tries"@,
            FatalError::Stat(e) => "process_perf_stat_output failed: "@ + e.spec_message() + ""@,
            FatalError::UnresolvedScenario => "the scenario `All` cannot be recorded"@,
            FatalError::UnresolvedProfile => "the profile `All` cannot be recorded"@,
            FatalError::MissingPatch => "a build after a patch needs the patch"@,
        }
    }

    pub fn message(&self) -> (r: String)
        ensures
            r@ == self.spec_message(),
    {
        match self {
            FatalError::NoStatistics => "failed to collect statistics after 5 tries".to_owned(),
            FatalError::Stat(e) => {
                let inner = e.message();
                concat3("process_perf_stat_output failed: ", inner.as_str(), "")
            },
            FatalError::UnresolvedScenario => "the scenario `All` cannot be recorded".to_owned(),
            FatalError::UnresolvedProfile => "the profile `All` cannot be recorded".to_owned(),
            FatalError::MissingPatch => "a build after a patch needs the patch".to_owned(),
        }
    }
}

} // verus!
