//! The measurement of a benchmark: for each build profile a number of
//! iterations, and in each iteration the scenarios in a fixed order.

use crate::benchmark::{patch_views, Benchmark};
use crate::numeral::{decimal, push_decimal};
use crate::patch::{patch_of, Patch, PatchView};
use crate::processor::Processor;
use crate::text::{chars_of, string_from};
use crate::tool::{PerfTool, Profile, Scenario};
use vstd::prelude::*;

verus! {

/// One step of an iteration.
#[derive(Clone, Debug, PartialEq, Eq)]
pub enum PlanStep {
    /// Apply the patch to the working copy.
    ApplyPatch(Patch),
    /// Build the working copy and measure the build.
    Run { scenario: Scenario, scenario_str: String, incremental: bool, patch: Option<Patch> },
}

/// What a `PlanStep` stands for in contracts.
pub enum StepView {
    ApplyPatch(PatchView),
    Run { scenario: Scenario, scenario_str: Seq<char>, incremental: bool, patch: Option<PatchView> },
}

impl View for PlanStep {
    type V = StepView;

    open spec fn view(&self) -> StepView {
        match self {
            PlanStep::ApplyPatch(p) => StepView::ApplyPatch(p@),
            PlanStep::Run { scenario, scenario_str, incremental, patch } => StepView::Run {
                scenario: *scenario,
                scenario_str: scenario_str@,
                incremental: *incremental,
                patch: patch_of(*patch),
            },
        }
    }
}

/// The views of a list of steps.
pub open spec fn step_views(steps: Seq<PlanStep>) -> Seq<StepView> {
    steps.map_values(|s: PlanStep| s@)
}

/// Whether one of the scenarios builds incrementally.
pub open spec fn any_incremental(scenarios: Seq<Scenario>) -> bool {
    exists|i: int| 0 <= i < scenarios.len() && (#[trigger] scenarios[i]).spec_is_incr()
}

/// A full, non-incremental build, where it is asked for.
pub open spec fn full_steps(scenarios: Seq<Scenario>) -> Seq<StepView> {
    if scenarios.contains(Scenario::Full) {
        seq![
            StepView::Run {
                scenario: Scenario::Full,
                scenario_str: "Full"@,
                incremental: false,
                patch: None,
            },
        ]
    } else {
        Seq::empty()
    }
}

/// An incremental build from scratch, the slowest incremental case. Every
/// other incremental build needs the state it leaves, so it is made where
/// any incremental scenario is asked for.
pub open spec fn incr_full_steps(scenarios: Seq<Scenario>) -> Seq<StepView> {
    if any_incremental(scenarios) {
        seq![
            StepView::Run {
                scenario: Scenario::IncrFull,
                scenario_str: "IncrFull"@,
                incremental: true,
                patch: None,
            },
        ]
    } else {
        Seq::empty()
    }
}

/// An incremental build with no changes, the fastest incremental case,
/// where it is asked for.
pub open spec fn incr_unchanged_steps(scenarios: Seq<Scenario>) -> Seq<StepView> {
    if scenarios.contains(Scenario::IncrUnchanged) {
        seq![
            StepView::Run {
                scenario: Scenario::IncrUnchanged,
                scenario_str: "IncrUnchanged"@,
                incremental: true,
                patch: None,
            },
        ]
    } else {
        Seq::empty()
    }
}

/// The two steps for the patch at position `i`: apply it, then build
/// incrementally.
pub open spec fn patch_steps(patch: PatchView, i: nat) -> Seq<StepView> {
    seq![
        StepView::ApplyPatch(patch),
        StepView::Run {
            scenario: Scenario::IncrPatched,
            scenario_str: "IncrPatched"@ + decimal(i),
            incremental: true,
            patch: Some(patch),
        },
    ]
}

/// The steps for a list of patches: those of each patch, in the order of the
/// list.
pub open spec fn all_patch_steps(patches: Seq<PatchView>) -> Seq<StepView>
    decreases patches.len(),
{
    if patches.len() == 0 {
        Seq::empty()
    } else {
        all_patch_steps(patches.drop_last()) + patch_steps(
            patches.last(),
            (patches.len() - 1) as nat,
        )
    }
}

/// The incremental builds with changes, where they are asked for.
pub open spec fn incr_patched_steps(scenarios: Seq<Scenario>, patches: Seq<PatchView>) -> Seq<
    StepView,
> {
    if scenarios.contains(Scenario::IncrPatched) {
        all_patch_steps(patches)
    } else {
        Seq::empty()
    }
}

/// The steps of one iteration: the full build; then, unless documentation
/// is built, which knows no incremental compilation, the incremental build
/// from scratch, the one without changes, and one after each patch.
pub open spec fn spec_plan(
    profile: Profile,
    scenarios: Seq<Scenario>,
    patches: Seq<PatchView>,
) -> Seq<StepView> {
    if profile == Profile::Doc {
        full_steps(scenarios)
    } else {
        full_steps(scenarios) + incr_full_steps(scenarios) + incr_unchanged_steps(scenarios)
            + incr_patched_steps(scenarios, patches)
    }
}

fn has_scenario(scenarios: &Vec<Scenario>, wanted: Scenario) -> (r: bool)
    ensures
        r == scenarios@.contains(wanted),
{
    let mut i: usize = 0;
    while i < scenarios.len()
        invariant
            i <= scenarios@.len(),
            forall|j: int| 0 <= j < i ==> scenarios@[j] != wanted,
        decreases scenarios@.len() - i,
    {
        if scenarios[i] == wanted {
            return true;
        }
        i += 1;
    }
    false
}

fn has_incremental(scenarios: &Vec<Scenario>) -> (r: bool)
    ensures
        r == any_incremental(scenarios@),
{
    let mut i: usize = 0;
    while i < scenarios.len()
        invariant
            i <= scenarios@.len(),
            forall|j: int| 0 <= j < i ==> !(#[trigger] scenarios@[j]).spec_is_incr(),
        decreases scenarios@.len() - i,
    {
        if scenarios[i].is_incr() {
            return true;
        }
        i += 1;
    }
    false
}

fn push_run(
    steps: &mut Vec<PlanStep>,
    scenario: Scenario,
    scenario_str: &str,
    incremental: bool,
)
    ensures
        step_views(final(steps)@) == step_views(old(steps)@) + seq![
            StepView::Run { scenario, scenario_str: scenario_str@, incremental, patch: None },
        ],
{
    steps.push(
        PlanStep::Run { scenario, scenario_str: scenario_str.to_owned(), incremental, patch: None },
    );
    proof {
        assert(step_views(steps@) =~= step_views(old(steps)@) + seq![
            StepView::Run { scenario, scenario_str: scenario_str@, incremental, patch: None },
        ]);
    }
}

fn push_patches(steps: &mut Vec<PlanStep>, patches: &Vec<Patch>)
    ensures
        step_views(final(steps)@) == step_views(old(steps)@) + all_patch_steps(
            patch_views(patches@),
        ),
{
    let ghost ps = patch_views(patches@);
    let mut i: usize = 0;
    proof {
        assert(ps.take(0) == Seq::<PatchView>::empty());
        assert(step_views(steps@) =~= step_views(old(steps)@) + all_patch_steps(ps.take(0)));
    }
    while i < patches.len()
        invariant
            i <= patches@.len(),
            ps == patch_views(patches@),
            step_views(steps@) == step_views(old(steps)@) + all_patch_steps(ps.take(i as int)),
        decreases patches@.len() - i,
    {
        let mut label = chars_of("IncrPatched");
        push_decimal(&mut label, i as u64);
        let ghost before = steps@;
        steps.push(PlanStep::ApplyPatch(patches[i].duplicate()));
        steps.push(
            PlanStep::Run {
                scenario: Scenario::IncrPatched,
                scenario_str: string_from(label.as_slice()),
                incremental: true,
                patch: Some(patches[i].duplicate()),
            },
        );
        proof {
            assert(ps.take(i + 1).drop_last() == ps.take(i as int));
            assert(ps.take(i + 1).last() == patches@[i as int]@);
            assert(step_views(steps@) =~= step_views(before) + patch_steps(
                patches@[i as int]@,
                i as nat,
            ));
            assert(step_views(old(steps)@) + all_patch_steps(ps.take(i as int)) + patch_steps(
                patches@[i as int]@,
                i as nat,
            ) =~= step_views(old(steps)@) + all_patch_steps(ps.take(i + 1)));
        }
        i += 1;
    }
    proof {
        assert(ps.take(i as int) == ps);
    }
}

/// The steps of one iteration of a profile.
pub fn scenario_plan(profile: Profile, scenarios: &Vec<Scenario>, patches: &Vec<Patch>) -> (r: Vec<
    PlanStep,
>)
    ensures
        step_views(r@) == spec_plan(profile, scenarios@, patch_views(patches@)),
{
    let mut steps: Vec<PlanStep> = Vec::new();
    let ghost none = step_views(steps@);
    proof {
        assert(none =~= Seq::<StepView>::empty());
    }
    // A full non-incremental build.
    if has_scenario(scenarios, Scenario::Full) {
        push_run(&mut steps, Scenario::Full, "Full", false);
    }
    proof {
        assert(step_views(steps@) =~= full_steps(scenarios@));
    }
    // Rustdoc does not support incremental compilation.
    if profile != Profile::Doc {
        let ghost s0 = step_views(steps@);
        if has_incremental(scenarios) {
            push_run(&mut steps, Scenario::IncrFull, "IncrFull", true);
        }
        let ghost s1 = step_views(steps@);
        proof {
            assert(s1 =~= s0 + incr_full_steps(scenarios@));
        }
        if has_scenario(scenarios, Scenario::IncrUnchanged) {
            push_run(&mut steps, Scenario::IncrUnchanged, "IncrUnchanged", true);
        }
        let ghost s2 = step_views(steps@);
        proof {
            assert(s2 =~= s1 + incr_unchanged_steps(scenarios@));
        }
        if has_scenario(scenarios, Scenario::IncrPatched) {
            push_patches(&mut steps, patches);
        }
        proof {
            assert(step_views(steps@) =~= s2 + incr_patched_steps(
                scenarios@,
                patch_views(patches@),
            ));
        }
    }
    steps
}

/// Where a measurement stands.
#[derive(Clone, Copy, Debug, PartialEq, Eq, Structural)]
pub enum MeasurePhase {
    /// Nothing was done yet.
    Idle,
    /// The working copies of the profiles are being prepared.
    Preparing,
    /// The processor is told that the first collection begins.
    StartingProfile,
    /// The processor is asked whether its tool changed after the first
    /// collection.
    AskingTool,
    /// The working copy of an iteration is being made.
    OpeningIteration,
    /// A step of an iteration is being taken.
    InIteration,
    /// The working copy of an iteration is being removed.
    ClosingIteration,
    /// Everything was measured.
    Done,
    /// The measurement was given up.
    Failed,
}

/// What the caller reports to a measurement.
#[derive(Clone, Copy, Debug, PartialEq, Eq, Structural)]
pub enum MeasureEvent {
    /// The measurement begins.
    Start,
    /// What was asked for last has been done.
    Completed,
    /// The processor has finished its first collection, and says whether it
    /// goes on with another tool.
    FirstCollection(bool),
    /// What was asked for last could not be done.
    Failed,
}

/// Why a benchmark is not measured.
#[derive(Clone, Copy, Debug, PartialEq, Eq, Structural)]
pub enum MeasureError {
    /// The benchmark is disabled, or no profile is asked for.
    Disabled,
    /// The caller reported something that the measurement was not waiting
    /// for.
    UnexpectedEvent,
}

/// What the caller does next for a measurement. Where that cannot be done,
/// the caller reports the failure, which ends the measurement.
#[derive(Clone, Debug, PartialEq, Eq)]
pub enum MeasureAction {
    /// Make a working copy of the benchmark for each of the profiles and
    /// build the dependencies in each. Nothing is measured here, so the
    /// copies may be built at the same time.
    Prepare(Vec<Profile>),
    /// Tell the processor that the first collection begins.
    StartFirstCollection,
    /// Tell the processor that the first collection is over, and report its
    /// answer.
    FinishFirstCollection,
    /// Make a fresh copy of the prepared working copy of the profile.
    BeginIteration { profile: Profile, iteration: usize },
    /// Take the step in the working copy of the iteration.
    Step { profile: Profile, step: PlanStep },
    /// Remove the working copy of the iteration.
    EndIteration,
    /// Nothing: the measurement is complete.
    Done,
    /// Nothing: the measurement cannot go on.
    Fail(MeasureError),
    /// End the measurement after a failure: nothing more is run. Where told
    /// to keep it, leave the working copy of the iteration as it is, so that
    /// the failing state can be inspected; it is the copy in which a step
    /// failed.
    Abandon { keep_working_copy: bool },
}

/// What a `MeasureAction` stands for in contracts.
pub enum MeasureActionView {
    Prepare(Seq<Profile>),
    StartFirstCollection,
    FinishFirstCollection,
    BeginIteration { profile: Profile, iteration: nat },
    Step { profile: Profile, step: StepView },
    EndIteration,
    Done,
    Fail(MeasureError),
    Abandon { keep_working_copy: bool },
}

impl View for MeasureAction {
    type V = MeasureActionView;

    open spec fn view(&self) -> MeasureActionView {
        match self {
            MeasureAction::Prepare(ps) => MeasureActionView::Prepare(ps@),
            MeasureAction::StartFirstCollection => MeasureActionView::StartFirstCollection,
            MeasureAction::FinishFirstCollection => MeasureActionView::FinishFirstCollection,
            MeasureAction::BeginIteration { profile, iteration } => {
                MeasureActionView::BeginIteration { profile: *profile, iteration: *iteration as nat }
            },
            MeasureAction::Step { profile, step } => MeasureActionView::Step {
                profile: *profile,
                step: step@,
            },
            MeasureAction::EndIteration => MeasureActionView::EndIteration,
            MeasureAction::Done => MeasureActionView::Done,
            MeasureAction::Fail(e) => MeasureActionView::Fail(*e),
            MeasureAction::Abandon { keep_working_copy } => MeasureActionView::Abandon {
                keep_working_copy: *keep_working_copy,
            },
        }
    }
}

/// The measurement of one benchmark under way.
pub struct Measurement {
    profiles: Vec<Profile>,
    scenarios: Vec<Scenario>,
    patches: Vec<Patch>,
    iterations: usize,
    phase: MeasurePhase,
    profile: usize,
    iteration: usize,
    pos: usize,
}

/// What a `Measurement` stands for in contracts.
pub struct MeasureView {
    /// The profiles to measure, in order.
    pub profiles: Seq<Profile>,
    /// The scenarios asked for.
    pub scenarios: Seq<Scenario>,
    /// The patches of the benchmark, in the order they are applied in.
    pub patches: Seq<PatchView>,
    /// The number of iterations asked for.
    pub iterations: nat,
    pub phase: MeasurePhase,
    /// The position of the profile under way among the profiles.
    pub profile: nat,
    /// The number of the iteration under way, from 0.
    pub iteration: nat,
    /// The position of the step under way among the steps of the iteration.
    pub pos: nat,
}

/// The number of iterations of a profile, unless the second is left out: at
/// least two, since the first may be spent on self-instrumentation.
pub open spec fn iteration_bound(iterations: nat) -> nat {
    if iterations > 2 {
        iterations
    } else {
        2
    }
}

impl MeasureView {
    /// The steps of an iteration of the profile under way.
    pub open spec fn plan(self) -> Seq<StepView> {
        spec_plan(self.profiles[self.profile as int], self.scenarios, self.patches)
    }

    /// Whether a profile is under way.
    pub open spec fn in_profile(self) -> bool {
        self.phase == MeasurePhase::StartingProfile || self.in_iteration() || self.phase
            == MeasurePhase::AskingTool
    }

    /// Whether an iteration is under way.
    pub open spec fn in_iteration(self) -> bool {
        self.phase == MeasurePhase::OpeningIteration || self.phase == MeasurePhase::InIteration
            || self.phase == MeasurePhase::ClosingIteration
    }

    /// What holds of every measurement: there is a profile to measure; the
    /// profile, the iteration and the step under way exist; and the processor
    /// is asked about its tool after the first iteration only.
    pub open spec fn wf(self) -> bool {
        &&& self.profiles.len() > 0
        &&& self.in_profile() ==> self.profile < self.profiles.len()
        &&& self.in_iteration() ==> self.iteration < iteration_bound(self.iterations)
        &&& self.phase == MeasurePhase::AskingTool ==> self.iteration == 0
        &&& self.phase == MeasurePhase::InIteration ==> self.pos < self.plan().len()
    }

    /// Goes on to the profile at position `profile`, or ends the measurement
    /// where there is none. Each profile begins with the processor's first
    /// collection.
    pub open spec fn enter_profile(self, profile: nat) -> (MeasureView, MeasureActionView) {
        if profile < self.profiles.len() {
            (
                MeasureView {
                    phase: MeasurePhase::StartingProfile,
                    profile,
                    iteration: 0,
                    pos: 0,
                    ..self
                },
                MeasureActionView::StartFirstCollection,
            )
        } else {
            (MeasureView { phase: MeasurePhase::Done, ..self }, MeasureActionView::Done)
        }
    }

    /// Goes on to the iteration of the number `iteration`, which begins with
    /// a fresh working copy.
    pub open spec fn enter_iteration(self, iteration: nat) -> (MeasureView, MeasureActionView) {
        (
            MeasureView { phase: MeasurePhase::OpeningIteration, iteration, pos: 0, ..self },
            MeasureActionView::BeginIteration {
                profile: self.profiles[self.profile as int],
                iteration,
            },
        )
    }

    /// Goes on to the step at position `pos` of the iteration, or closes the
    /// iteration where there is none.
    pub open spec fn enter_step(self, pos: nat) -> (MeasureView, MeasureActionView) {
        if pos < self.plan().len() {
            (
                MeasureView { phase: MeasurePhase::InIteration, pos, ..self },
                MeasureActionView::Step {
                    profile: self.profiles[self.profile as int],
                    step: self.plan()[pos as int],
                },
            )
        } else {
            (
                MeasureView { phase: MeasurePhase::ClosingIteration, ..self },
                MeasureActionView::EndIteration,
            )
        }
    }

    /// Ends the measurement after a failure. The working copy of the
    /// iteration is kept where a step of the iteration failed: that is the
    /// state worth inspecting.
    pub open spec fn abandon(self) -> (MeasureView, MeasureActionView) {
        (
            MeasureView { phase: MeasurePhase::Failed, ..self },
            MeasureActionView::Abandon {
                keep_working_copy: self.phase == MeasurePhase::InIteration,
            },
        )
    }

    /// Gives the measurement up.
    pub open spec fn fail(self, error: MeasureError) -> (MeasureView, MeasureActionView) {
        (MeasureView { phase: MeasurePhase::Failed, ..self }, MeasureActionView::Fail(error))
    }

    /// The measurement after the caller's report, and what the caller does
    /// next.
    ///
    /// The working copies are prepared first. Then the profiles are taken in
    /// order, and for each the iterations, every one in a working copy of
    /// its own, in which the steps of the plan are taken in order. After the
    /// first iteration the processor is asked whether its tool changes:
    /// where one iteration is asked for and the tool stays, the profile is
    /// over; else the iterations go on until there were as many as asked
    /// for, and two at least. The report of a failure ends the measurement,
    /// wherever it stands.
    pub open spec fn step(self, event: MeasureEvent) -> (MeasureView, MeasureActionView) {
        match (self.phase, event) {
            (_, MeasureEvent::Failed) => self.abandon(),
            (MeasurePhase::Idle, MeasureEvent::Start) => (
                MeasureView { phase: MeasurePhase::Preparing, ..self },
                MeasureActionView::Prepare(self.profiles),
            ),
            (MeasurePhase::Preparing, MeasureEvent::Completed) => self.enter_profile(0),
            (MeasurePhase::StartingProfile, MeasureEvent::Completed) => self.enter_iteration(0),
            (MeasurePhase::OpeningIteration, MeasureEvent::Completed) => self.enter_step(0),
            (MeasurePhase::InIteration, MeasureEvent::Completed) => self.enter_step(self.pos + 1),
            (MeasurePhase::ClosingIteration, MeasureEvent::Completed) => {
                if self.iteration + 1 >= iteration_bound(self.iterations) {
                    self.enter_profile(self.profile + 1)
                } else if self.iteration == 0 {
                    (
                        MeasureView { phase: MeasurePhase::AskingTool, ..self },
                        MeasureActionView::FinishFirstCollection,
                    )
                } else {
                    self.enter_iteration(self.iteration + 1)
                }
            },
            (MeasurePhase::AskingTool, MeasureEvent::FirstCollection(changed)) => {
                if self.iterations == 1 && !changed {
                    // Don't run twice if this processor doesn't need it and
                    // we've only been asked to run once.
                    self.enter_profile(self.profile + 1)
                } else {
                    self.enter_iteration(self.iteration + 1)
                }
            },
            _ => self.fail(MeasureError::UnexpectedEvent),
        }
    }
}

impl View for Measurement {
    type V = MeasureView;

    closed spec fn view(&self) -> MeasureView {
        MeasureView {
            profiles: self.profiles@,
            scenarios: self.scenarios@,
            patches: patch_views(self.patches@),
            iterations: self.iterations as nat,
            phase: self.phase,
            profile: self.profile as nat,
            iteration: self.iteration as nat,
            pos: self.pos as nat,
        }
    }
}

impl Measurement {
    fn enter_profile(&mut self, profile: usize) -> (r: MeasureAction)
        requires
            old(self)@.profiles.len() > 0,
        ensures
            (final(self)@, r@) == old(self)@.enter_profile(profile as nat),
            final(self)@.phase != MeasurePhase::Done ==> final(self)@.wf(),
            final(self)@.phase == MeasurePhase::Done ==> final(self)@ == (MeasureView {
                phase: MeasurePhase::Done,
                ..old(self)@
            }),
    {
        if profile < self.profiles.len() {
            self.phase = MeasurePhase::StartingProfile;
            self.profile = profile;
            self.iteration = 0;
            self.pos = 0;
            MeasureAction::StartFirstCollection
        } else {
            self.phase = MeasurePhase::Done;
            MeasureAction::Done
        }
    }

    fn enter_iteration(&mut self, iteration: usize) -> (r: MeasureAction)
        requires
            old(self)@.profiles.len() > 0,
            old(self)@.profile < old(self)@.profiles.len(),
            iteration < iteration_bound(old(self)@.iterations),
        ensures
            (final(self)@, r@) == old(self)@.enter_iteration(iteration as nat),
            final(self)@.wf(),
    {
        self.phase = MeasurePhase::OpeningIteration;
        self.iteration = iteration;
        self.pos = 0;
        MeasureAction::BeginIteration { profile: self.profiles[self.profile], iteration }
    }

    fn enter_step(&mut self, pos: usize) -> (r: MeasureAction)
        requires
            old(self)@.profiles.len() > 0,
            old(self)@.profile < old(self)@.profiles.len(),
            old(self)@.iteration < iteration_bound(old(self)@.iterations),
        ensures
            (final(self)@, r@) == old(self)@.enter_step(pos as nat),
            final(self)@.wf(),
    {
        let profile = self.profiles[self.profile];
        let mut plan = scenario_plan(profile, &self.scenarios, &self.patches);
        proof {
            assert(step_views(plan@).len() == plan@.len());
        }
        if pos < plan.len() {
            proof {
                assert(step_views(plan@)[pos as int] == plan@[pos as int]@);
            }
            let step = plan.swap_remove(pos);
            self.phase = MeasurePhase::InIteration;
            self.pos = pos;
            MeasureAction::Step { profile, step }
        } else {
            self.phase = MeasurePhase::ClosingIteration;
            MeasureAction::EndIteration
        }
    }

    /// Takes the caller's report and says what to do next.
    pub fn advance(&mut self, event: MeasureEvent) -> (r: MeasureAction)
        requires
            old(self)@.wf(),
        ensures
            (final(self)@, r@) == old(self)@.step(event),
            final(self)@.wf(),
    {
        match (self.phase, event) {
            (_, MeasureEvent::Failed) => {
                let keep_working_copy = self.phase == MeasurePhase::InIteration;
                self.phase = MeasurePhase::Failed;
                MeasureAction::Abandon { keep_working_copy }
            },
            (MeasurePhase::Idle, MeasureEvent::Start) => {
                self.phase = MeasurePhase::Preparing;
                let mut profiles: Vec<Profile> = Vec::new();
                let mut i: usize = 0;
                while i < self.profiles.len()
                    invariant
                        i <= self.profiles@.len(),
                        profiles@ == self.profiles@.take(i as int),
                    decreases self.profiles@.len() - i,
                {
                    profiles.push(self.profiles[i]);
                    proof {
                        assert(self.profiles@.take(i + 1) == self.profiles@.take(i as int).push(
                            self.profiles@[i as int],
                        ));
                    }
                    i += 1;
                }
                proof {
                    assert(self.profiles@.take(i as int) == self.profiles@);
                }
                MeasureAction::Prepare(profiles)
            },
            (MeasurePhase::Preparing, MeasureEvent::Completed) => self.enter_profile(0),
            (MeasurePhase::StartingProfile, MeasureEvent::Completed) => self.enter_iteration(0),
            (MeasurePhase::OpeningIteration, MeasureEvent::Completed) => self.enter_step(0),
            (MeasurePhase::InIteration, MeasureEvent::Completed) => {
                let plan = scenario_plan(
                    self.profiles[self.profile],
                    &self.scenarios,
                    &self.patches,
                );
                let steps: usize = plan.len();
                proof {
                    assert(step_views(plan@).len() == plan@.len());
                    assert(self@.plan() == step_views(plan@));
                    assert(self.pos < steps);
                }
                self.enter_step(self.pos + 1)
            },
            (MeasurePhase::ClosingIteration, MeasureEvent::Completed) => {
                let bound: usize = if self.iterations > 2 {
                    self.iterations
                } else {
                    2
                };
                let profiles: usize = self.profiles.len();
                proof {
                    assert(self@.in_iteration());
                    assert(self.profile < profiles);
                }
                if self.iteration + 1 >= bound {
                    self.enter_profile(self.profile + 1)
                } else if self.iteration == 0 {
                    self.phase = MeasurePhase::AskingTool;
                    MeasureAction::FinishFirstCollection
                } else {
                    self.enter_iteration(self.iteration + 1)
                }
            },
            (MeasurePhase::AskingTool, MeasureEvent::FirstCollection(changed)) => {
                let profiles: usize = self.profiles.len();
                proof {
                    assert(self@.in_profile());
                    assert(self.profile < profiles);
                }
                if self.iterations == 1 && !changed {
                    self.enter_profile(self.profile + 1)
                } else {
                    self.enter_iteration(self.iteration + 1)
                }
            },
            _ => {
                self.phase = MeasurePhase::Failed;
                MeasureAction::Fail(MeasureError::UnexpectedEvent)
            },
        }
    }

    /// Where the measurement stands.
    pub fn phase(&self) -> (r: MeasurePhase)
        ensures
            r == self@.phase,
    {
        self.phase
    }

    /// The position of the profile under way among the profiles.
    pub fn profile(&self) -> (r: usize)
        ensures
            r == self@.profile,
    {
        self.profile
    }
}

impl Benchmark {
    /// Begins the measurement of the benchmark for the profiles and the
    /// scenarios, with the number of iterations of the benchmark's options
    /// unless another is given. A disabled benchmark is not measured, and
    /// neither is one for which no profile is asked.
    pub fn measure(
        &self,
        profiles: &Vec<Profile>,
        scenarios: &Vec<Scenario>,
        iterations: Option<usize>,
    ) -> (r: Result<Measurement, MeasureError>)
        ensures
            match r {
                Ok(m) => !self.config.disabled && profiles@.len() > 0 && m@.wf() && m@
                    == (MeasureView {
                    profiles: profiles@,
                    scenarios: scenarios@,
                    patches: patch_views(self.patches@),
                    iterations: (match iterations {
                        Some(n) => n,
                        None => self.config.runs,
                    }) as nat,
                    phase: MeasurePhase::Idle,
                    profile: 0,
                    iteration: 0,
                    pos: 0,
                }),
                Err(e) => e == MeasureError::Disabled && (self.config.disabled || profiles@.len()
                    == 0),
            },
    {
        if self.config.disabled || profiles.len() == 0 {
            return Err(MeasureError::Disabled);
        }
        let iterations: usize = match iterations {
            Some(n) => n,
            None => self.config.runs,
        };
        let mut ps: Vec<Profile> = Vec::new();
        let mut i: usize = 0;
        while i < profiles.len()
            invariant
                i <= profiles@.len(),
                ps@ == profiles@.take(i as int),
            decreases profiles@.len() - i,
        {
            ps.push(profiles[i]);
            proof {
                assert(profiles@.take(i + 1) == profiles@.take(i as int).push(profiles@[i as int]));
            }
            i += 1;
        }
        let mut ss: Vec<Scenario> = Vec::new();
        let mut j: usize = 0;
        while j < scenarios.len()
            invariant
                j <= scenarios@.len(),
                ss@ == scenarios@.take(j as int),
            decreases scenarios@.len() - j,
        {
            ss.push(scenarios[j]);
            proof {
                assert(scenarios@.take(j + 1) == scenarios@.take(j as int).push(
                    scenarios@[j as int],
                ));
            }
            j += 1;
        }
        let mut patches: Vec<Patch> = Vec::new();
        let mut k: usize = 0;
        while k < self.patches.len()
            invariant
                k <= self.patches@.len(),
                patch_views(patches@) == patch_views(self.patches@.take(k as int)),
            decreases self.patches@.len() - k,
        {
            let ghost before = patches@;
            patches.push(self.patches[k].duplicate());
            proof {
                assert(patch_views(patches@) =~= patch_views(before).push(self.patches@[k as int]@));
                assert(patch_views(self.patches@.take(k + 1)) =~= patch_views(
                    self.patches@.take(k as int),
                ).push(self.patches@[k as int]@));
            }
            k += 1;
        }
        proof {
            assert(profiles@.take(i as int) == profiles@);
            assert(scenarios@.take(j as int) == scenarios@);
            assert(self.patches@.take(k as int) == self.patches@);
        }
        Ok(
            Measurement {
                profiles: ps,
                scenarios: ss,
                patches,
                iterations,
                phase: MeasurePhase::Idle,
                profile: 0,
                iteration: 0,
                pos: 0,
            },
        )
    }
}

/// The patches that a list of steps applies, in the order of the steps.
pub open spec fn applied(steps: Seq<StepView>) -> Seq<PatchView>
    decreases steps.len(),
{
    if steps.len() == 0 {
        Seq::empty()
    } else {
        match steps.last() {
            StepView::ApplyPatch(p) => applied(steps.drop_last()).push(p),
            _ => applied(steps.drop_last()),
        }
    }
}

proof fn lemma_applied_add(a: Seq<StepView>, b: Seq<StepView>)
    ensures
        applied(a + b) == applied(a) + applied(b),
    decreases b.len(),
{
    if b.len() == 0 {
        assert(a + b == a);
        assert(applied(a) + applied(b) == applied(a));
    } else {
        lemma_applied_add(a, b.drop_last());
        assert((a + b).drop_last() == a + b.drop_last());
        assert((a + b).last() == b.last());
        match b.last() {
            StepView::ApplyPatch(p) => {
                assert(applied(a) + applied(b.drop_last()).push(p) == (applied(a) + applied(
                    b.drop_last(),
                )).push(p));
            },
            _ => {},
        }
    }
}

proof fn lemma_applied_run(step: StepView)
    requires
        step is Run,
    ensures
        applied(seq![step]) == Seq::<PatchView>::empty(),
{
    assert(seq![step].drop_last() == Seq::<StepView>::empty());
    assert(applied(Seq::<StepView>::empty()) == Seq::<PatchView>::empty());
}

proof fn lemma_applied_patches(patches: Seq<PatchView>)
    ensures
        applied(all_patch_steps(patches)) == patches,
    decreases patches.len(),
{
    if patches.len() > 0 {
        let p = patches.last();
        let two = patch_steps(p, (patches.len() - 1) as nat);
        lemma_applied_patches(patches.drop_last());
        lemma_applied_add(all_patch_steps(patches.drop_last()), two);
        assert(applied(two) == seq![p]) by {
            reveal_with_fuel(applied, 3);
            assert(two.drop_last() == seq![two[0]]);
            assert(two.drop_last().drop_last() == Seq::<StepView>::empty());
            assert(Seq::<PatchView>::empty().push(p) == seq![p]);
        }
        assert(patches.drop_last() + seq![p] == patches);
    }
}

/// The patches that an iteration applies are the patches of the benchmark,
/// all of them and in their order, where builds after patches are asked for
/// and the profile allows them; in every other case none is applied.
pub proof fn lemma_plan_applies_patches_in_order(
    profile: Profile,
    scenarios: Seq<Scenario>,
    patches: Seq<PatchView>,
)
    ensures
        applied(spec_plan(profile, scenarios, patches)) == if profile != Profile::Doc
            && scenarios.contains(Scenario::IncrPatched) {
            patches
        } else {
            Seq::<PatchView>::empty()
        },
{
    let none = Seq::<PatchView>::empty();
    let full = full_steps(scenarios);
    let scratch = incr_full_steps(scenarios);
    let unchanged = incr_unchanged_steps(scenarios);
    let patched = incr_patched_steps(scenarios, patches);
    assert(applied(Seq::<StepView>::empty()) == none);
    assert(applied(full) == none) by {
        if scenarios.contains(Scenario::Full) {
            lemma_applied_run(full[0]);
        }
    }
    assert(applied(scratch) == none) by {
        if any_incremental(scenarios) {
            lemma_applied_run(scratch[0]);
        }
    }
    assert(applied(unchanged) == none) by {
        if scenarios.contains(Scenario::IncrUnchanged) {
            lemma_applied_run(unchanged[0]);
        }
    }
    if profile != Profile::Doc {
        lemma_applied_add(full, scratch);
        lemma_applied_add(full + scratch, unchanged);
        lemma_applied_add(full + scratch + unchanged, patched);
        lemma_applied_patches(patches);
        assert(none + none == none);
        assert(none + applied(patched) == applied(patched));
    }
}

/// A measurement applies the patches of its benchmark in ascending order of
/// their numbers, whatever order their files were found in: the patches of
/// a benchmark are ordered by number, and an iteration applies them in their
/// order.
pub proof fn lemma_patches_applied_ascending(
    benchmark: Benchmark,
    profile: Profile,
    scenarios: Seq<Scenario>,
)
    requires
        benchmark.wf(),
    ensures
        forall|i: int, j: int|
            0 <= i <= j < applied(spec_plan(profile, scenarios, patch_views(benchmark.patches@))).len()
                ==> (#[trigger] applied(
                spec_plan(profile, scenarios, patch_views(benchmark.patches@)),
            )[i]).index <= (#[trigger] applied(
                spec_plan(profile, scenarios, patch_views(benchmark.patches@)),
            )[j]).index,
{
    let patches = benchmark.patches@;
    lemma_plan_applies_patches_in_order(profile, scenarios, patch_views(benchmark.patches@));
    let a = applied(spec_plan(profile, scenarios, patch_views(benchmark.patches@)));
    assert forall|i: int, j: int| 0 <= i <= j < a.len() implies (#[trigger] a[i]).index <= (
    #[trigger] a[j]).index by {
        assert(a[i] == patches[i]@);
        assert(a[j] == patches[j]@);
        assert(patches[i].spec_index() <= patches[j].spec_index());
    }
}

/// Where no two patches of the benchmark have the same number, each patch
/// that a measurement applies has a greater number than the one before.
pub proof fn lemma_patches_applied_strictly_ascending(
    benchmark: Benchmark,
    profile: Profile,
    scenarios: Seq<Scenario>,
)
    requires
        benchmark.wf(),
        forall|i: int, j: int|
            0 <= i < j < benchmark.patches@.len() ==> (#[trigger] benchmark.patches@[i]).index != (
            #[trigger] benchmark.patches@[j]).index,
    ensures
        forall|i: int, j: int|
            0 <= i < j < applied(spec_plan(profile, scenarios, patch_views(benchmark.patches@))).len() ==> (
            #[trigger] applied(spec_plan(profile, scenarios, patch_views(benchmark.patches@)))[i]).index < (
            #[trigger] applied(spec_plan(profile, scenarios, patch_views(benchmark.patches@)))[j]).index,
{
    let patches = benchmark.patches@;
    lemma_plan_applies_patches_in_order(profile, scenarios, patch_views(patches));
    let a = applied(spec_plan(profile, scenarios, patch_views(patches)));
    assert forall|i: int, j: int| 0 <= i < j < a.len() implies (#[trigger] a[i]).index < (
    #[trigger] a[j]).index by {
        assert(a[i] == patches[i]@);
        assert(a[j] == patches[j]@);
        assert(patches[i].spec_index() <= patches[j].spec_index());
        assert(patches[i].index != patches[j].index);
    }
}

/// A documentation build is never built incrementally, whatever scenarios
/// are asked for: its iterations hold the full build and nothing else.
pub proof fn lemma_doc_plan_is_full_only(scenarios: Seq<Scenario>, patches: Seq<PatchView>)
    ensures
        spec_plan(Profile::Doc, scenarios, patches).len() <= 1,
        forall|i: int|
            0 <= i < spec_plan(Profile::Doc, scenarios, patches).len() ==> #[trigger] spec_plan(
                Profile::Doc,
                scenarios,
                patches,
            )[i] == (StepView::Run {
                scenario: Scenario::Full,
                scenario_str: "Full"@,
                incremental: false,
                patch: None,
            }),
{
}

/// Whether the step is an incremental build that needs the state of an
/// earlier one.
pub open spec fn needs_incremental_state(step: StepView) -> bool {
    step matches StepView::Run { scenario, .. } && (scenario == Scenario::IncrUnchanged || scenario
        == Scenario::IncrPatched)
}

/// Whether the step is the incremental build from scratch.
pub open spec fn is_incr_full(step: StepView) -> bool {
    step matches StepView::Run { scenario, incremental, .. } && scenario == Scenario::IncrFull
        && incremental
}

proof fn lemma_patch_steps_kinds(patches: Seq<PatchView>, i: int)
    requires
        0 <= i < all_patch_steps(patches).len(),
    ensures
        !is_incr_full(all_patch_steps(patches)[i]),
    decreases patches.len(),
{
    if patches.len() > 0 {
        let head = all_patch_steps(patches.drop_last());
        if i < head.len() {
            lemma_patch_steps_kinds(patches.drop_last(), i);
        }
    }
}

/// Every incremental build that needs the state of an earlier one comes
/// after the incremental build from scratch, in the same iteration.
pub proof fn lemma_incremental_state_comes_first(
    profile: Profile,
    scenarios: Seq<Scenario>,
    patches: Seq<PatchView>,
    j: int,
)
    requires
        0 <= j < spec_plan(profile, scenarios, patches).len(),
        needs_incremental_state(spec_plan(profile, scenarios, patches)[j]),
    ensures
        exists|i: int|
            0 <= i < j && is_incr_full(#[trigger] spec_plan(profile, scenarios, patches)[i]),
{
    let plan = spec_plan(profile, scenarios, patches);
    let full = full_steps(scenarios);
    let scratch = incr_full_steps(scenarios);
    let unchanged = incr_unchanged_steps(scenarios);
    let patched = incr_patched_steps(scenarios, patches);
    assert(profile != Profile::Doc);
    assert(plan == full + scratch + unchanged + patched);
    assert(j >= full.len());
    if unchanged.len() > 0 {
        assert(scenarios.contains(Scenario::IncrUnchanged));
        let k = choose|k: int| 0 <= k < scenarios.len() && scenarios[k] == Scenario::IncrUnchanged;
        assert(scenarios[k].spec_is_incr());
    }
    if patched.len() > 0 {
        assert(scenarios.contains(Scenario::IncrPatched));
        let k = choose|k: int| 0 <= k < scenarios.len() && scenarios[k] == Scenario::IncrPatched;
        assert(scenarios[k].spec_is_incr());
    }
    assert(any_incremental(scenarios));
    let i = full.len() as int;
    assert(plan[i] == scratch[0]);
    assert(is_incr_full(plan[i]));
    assert(i < j) by {
        if j == i {
            assert(!needs_incremental_state(plan[j]));
        }
    }
}

/// The number of iterations of a profile: as many as asked for, and two at
/// least; but one alone where one is asked for and the processor goes on
/// with the tool it has.
pub open spec fn iterations_run(iterations: nat, tool_changed: bool) -> nat {
    if iterations == 1 && !tool_changed {
        1
    } else {
        iteration_bound(iterations)
    }
}

impl MeasureView {
    /// The measurement after an iteration was closed, once the processor has
    /// answered what it may be asked then, and what the caller does next.
    pub open spec fn after_iteration(self, tool_changed: bool) -> (MeasureView, MeasureActionView) {
        let closed = self.step(MeasureEvent::Completed);
        if closed.1 is FinishFirstCollection {
            closed.0.step(MeasureEvent::FirstCollection(tool_changed))
        } else {
            closed
        }
    }
}

/// After each iteration of a profile the next one follows until
/// `iterations_run` of them were made, and then the next profile. With one
/// iteration asked for, that makes one iteration where the tool stays and
/// two where it changes.
pub proof fn lemma_iterations_of_a_profile(v: MeasureView, tool_changed: bool)
    requires
        v.wf(),
        v.phase == MeasurePhase::ClosingIteration,
    ensures
        v.iteration + 1 < iterations_run(v.iterations, tool_changed) ==> v.after_iteration(
            tool_changed,
        ) == v.enter_iteration(v.iteration + 1) && v.after_iteration(tool_changed).0.profile
            == v.profile,
        v.iteration + 1 >= iterations_run(v.iterations, tool_changed) ==> v.after_iteration(
            tool_changed,
        ) == v.enter_profile(v.profile + 1),
        iterations_run(1, false) == 1,
        iterations_run(1, true) == 2,
{
    let closed = v.step(MeasureEvent::Completed);
    if closed.1 is FinishFirstCollection {
        let asked = MeasureView { phase: MeasurePhase::AskingTool, ..v };
        assert(closed.0 == asked);
        assert(asked.enter_iteration(1) == v.enter_iteration(1));
        assert(asked.enter_profile(v.profile + 1) == v.enter_profile(v.profile + 1));
    }
}

/// A step of the machine keeps what holds of every measurement, and keeps
/// what is measured.
pub proof fn lemma_step_preserves(v: MeasureView, event: MeasureEvent)
    requires
        v.wf(),
    ensures
        v.step(event).0.wf(),
        v.step(event).0.profiles == v.profiles,
        v.step(event).0.scenarios == v.scenarios,
        v.step(event).0.patches == v.patches,
        v.step(event).0.iterations == v.iterations,
{
}

impl MeasureError {
    /// The error in words.
    pub open spec fn spec_message(self) -> Seq<char> {
        match self {
            MeasureError::Disabled => "disabled benchmark"@,
            MeasureError::UnexpectedEvent => "the measurement was not waiting for this"@,
        }
    }

    pub fn message(&self) -> (r: String)
        ensures
            r@ == self.spec_message(),
    {
        match self {
            MeasureError::Disabled => "disabled benchmark".to_owned(),
            MeasureError::UnexpectedEvent => "the measurement was not waiting for this".to_owned(),
        }
    }
}

impl MeasureView {
    /// Whether two measurements measure the same.
    pub open spec fn same_task(self, other: MeasureView) -> bool {
        &&& self.profiles == other.profiles
        &&& self.scenarios == other.scenarios
        &&& self.patches == other.patches
        &&& self.iterations == other.iterations
    }
}

impl MeasureView {
    /// What is reported to the measurement where the caller leaves the
    /// processor to it. Where the measurement waits for the processor's
    /// answer about its tool, the answer is reported: whether the tool
    /// `after` the processor has finished its first collection is another
    /// than the tool `before`. Any other report is the caller's own.
    pub open spec fn report_with(
        self,
        event: MeasureEvent,
        before: PerfTool,
        after: PerfTool,
    ) -> MeasureEvent {
        if self.phase == MeasurePhase::AskingTool && event == MeasureEvent::Completed {
            MeasureEvent::FirstCollection(after != before)
        } else {
            event
        }
    }
}

impl Measurement {
    /// Takes the caller's report and says what to do next, dealing with the
    /// processor where the measurement waits for it. The processor is
    /// called at most once.
    ///
    /// The caller who is handed `StartFirstCollection` or
    /// `FinishFirstCollection` does nothing and reports `Completed`. On that
    /// report the processor is told that its first collection begins, or is
    /// asked whether it goes on with another tool, and the measurement goes
    /// on as the answer says.
    pub fn advance_with<P: Processor + ?Sized>(
        &mut self,
        processor: &mut P,
        event: MeasureEvent,
    ) -> (r: MeasureAction)
        requires
            old(self)@.wf(),
        ensures
            final(self)@.wf(),
            final(self)@.same_task(old(self)@),
            (final(self)@, r@) == old(self)@.step(
                old(self)@.report_with(
                    event,
                    old(processor).spec_perf_tool(),
                    final(processor).spec_perf_tool(),
                ),
            ),
    {
        proof {
            lemma_step_preserves(
                self@,
                self@.report_with(
                    event,
                    old(processor).spec_perf_tool(),
                    final(processor).spec_perf_tool(),
                ),
            );
        }
        match (self.phase, event) {
            (MeasurePhase::StartingProfile, MeasureEvent::Completed) => {
                processor.start_first_collection();
                self.advance(MeasureEvent::Completed)
            },
            (MeasurePhase::AskingTool, MeasureEvent::Completed) => {
                let changed = processor.finished_first_collection();
                self.advance(MeasureEvent::FirstCollection(changed))
            },
            _ => self.advance(event),
        }
    }
}

/// A failure ends the measurement, wherever it stands: what is handed out
/// is to abandon it, and after that nothing is asked of the caller any more,
/// neither to take a step nor to remove a working copy. The working copy of
/// the iteration under way is kept where a step of the iteration failed.
pub proof fn lemma_failure_ends_measurement(v: MeasureView, later: MeasureEvent)
    ensures
        v.step(MeasureEvent::Failed) == v.abandon(),
        v.abandon().0.phase == MeasurePhase::Failed,
        v.abandon().1 == (MeasureActionView::Abandon {
            keep_working_copy: v.phase == MeasurePhase::InIteration,
        }),
        v.abandon().0.step(later).0.phase == MeasurePhase::Failed,
        v.abandon().0.step(later).1 is Fail || v.abandon().0.step(later).1
            == (MeasureActionView::Abandon { keep_working_copy: false }),
{
}

} // verus!
