//! Build profiles, change scenarios and the measurement tools, with the two
//! facts the engine needs of each tool: the cargo subcommand it runs under for
//! a profile, and the scenarios it can measure.

use vstd::prelude::*;

verus! {

/// The compilation mode under test. `All` is a request for every concrete
/// profile and is resolved before anything is run.
#[derive(Clone, Copy, Debug, PartialEq, Eq, Structural, Hash)]
pub enum Profile {
    Check,
    Debug,
    Doc,
    Opt,
    All,
}

/// The change pattern applied before a measured build. `All` is a request for
/// every concrete scenario and is resolved before anything is run.
#[derive(Clone, Copy, Debug, PartialEq, Eq, Structural, Hash)]
pub enum Scenario {
    All,
    Full,
    IncrFull,
    IncrUnchanged,
    IncrPatched,
}

/// Tools usable with the benchmarking subcommands.
#[derive(Clone, Copy, Debug, PartialEq, Eq, Structural)]
pub enum Bencher {
    PerfStat,
    PerfStatSelfProfile,
    XperfStat,
    XperfStatSelfProfile,
}

/// Tools usable with the profiling subcommands.
#[derive(Clone, Copy, Debug, PartialEq, Eq, Structural)]
pub enum Profiler {
    SelfProfile,
    TimePasses,
    PerfRecord,
    Oprofile,
    Cachegrind,
    Callgrind,
    Dhat,
    DhatCopy,
    Massif,
    Bytehound,
    Eprintln,
    LlvmLines,
    MonoItems,
    DepGraph,
    LlvmIr,
}

#[derive(Clone, Copy, Debug, PartialEq, Eq, Structural)]
pub enum PerfTool {
    BenchTool(Bencher),
    ProfileTool(Profiler),
}

impl Profile {
    /// The profile's name as it is shown in messages.
    pub open spec fn spec_name(self) -> Seq<char> {
        match self {
            Profile::Check => "Check"@,
            Profile::Debug => "Debug"@,
            Profile::Doc => "Doc"@,
            Profile::Opt => "Opt"@,
            Profile::All => "All"@,
        }
    }

    pub fn name(&self) -> (r: &'static str)
        ensures
            r@ == self.spec_name(),
    {
        match self {
            Profile::Check => "Check",
            Profile::Debug => "Debug",
            Profile::Doc => "Doc",
            Profile::Opt => "Opt",
            Profile::All => "All",
        }
    }
}

impl Scenario {
    pub open spec fn spec_is_incr(self) -> bool {
        self == Scenario::IncrFull || self == Scenario::IncrUnchanged || self
            == Scenario::IncrPatched
    }

    /// Whether the scenario builds with incremental compilation.
    pub fn is_incr(&self) -> (r: bool)
        ensures
            r == self.spec_is_incr(),
    {
        match self {
            Scenario::All | Scenario::Full => false,
            Scenario::IncrFull | Scenario::IncrUnchanged | Scenario::IncrPatched => true,
        }
    }

    /// The scenario's name as it is shown in messages.
    pub open spec fn spec_name(self) -> Seq<char> {
        match self {
            Scenario::All => "All"@,
            Scenario::Full => "Full"@,
            Scenario::IncrFull => "IncrFull"@,
            Scenario::IncrUnchanged => "IncrUnchanged"@,
            Scenario::IncrPatched => "IncrPatched"@,
        }
    }

    pub fn name(&self) -> (r: &'static str)
        ensures
            r@ == self.spec_name(),
    {
        match self {
            Scenario::All => "All",
            Scenario::Full => "Full",
            Scenario::IncrFull => "IncrFull",
            Scenario::IncrUnchanged => "IncrUnchanged",
            Scenario::IncrPatched => "IncrPatched",
        }
    }
}

impl Bencher {
    pub open spec fn spec_name(self) -> Seq<char> {
        match self {
            Bencher::PerfStat => "PerfStat"@,
            Bencher::PerfStatSelfProfile => "PerfStatSelfProfile"@,
            Bencher::XperfStat => "XperfStat"@,
            Bencher::XperfStatSelfProfile => "XperfStatSelfProfile"@,
        }
    }

    pub fn name(&self) -> (r: &'static str)
        ensures
            r@ == self.spec_name(),
    {
        match self {
            Bencher::PerfStat => "PerfStat",
            Bencher::PerfStatSelfProfile => "PerfStatSelfProfile",
            Bencher::XperfStat => "XperfStat",
            Bencher::XperfStatSelfProfile => "XperfStatSelfProfile",
        }
    }
}

impl Profiler {
    pub open spec fn spec_name(self) -> Seq<char> {
        match self {
            Profiler::SelfProfile => "SelfProfile"@,
            Profiler::TimePasses => "TimePasses"@,
            Profiler::PerfRecord => "PerfRecord"@,
            Profiler::Oprofile => "Oprofile"@,
            Profiler::Cachegrind => "Cachegrind"@,
            Profiler::Callgrind => "Callgrind"@,
            Profiler::Dhat => "Dhat"@,
            Profiler::DhatCopy => "DhatCopy"@,
            Profiler::Massif => "Massif"@,
            Profiler::Bytehound => "Bytehound"@,
            Profiler::Eprintln => "Eprintln"@,
            Profiler::LlvmLines => "LlvmLines"@,
            Profiler::MonoItems => "MonoItems"@,
            Profiler::DepGraph => "DepGraph"@,
            Profiler::LlvmIr => "LlvmIr"@,
        }
    }

    pub fn name(&self) -> (r: &'static str)
        ensures
            r@ == self.spec_name(),
    {
        match self {
            Profiler::SelfProfile => "SelfProfile",
            Profiler::TimePasses => "TimePasses",
            Profiler::PerfRecord => "PerfRecord",
            Profiler::Oprofile => "Oprofile",
            Profiler::Cachegrind => "Cachegrind",
            Profiler::Callgrind => "Callgrind",
            Profiler::Dhat => "Dhat",
            Profiler::DhatCopy => "DhatCopy",
            Profiler::Massif => "Massif",
            Profiler::Bytehound => "Bytehound",
            Profiler::Eprintln => "Eprintln",
            Profiler::LlvmLines => "LlvmLines",
            Profiler::MonoItems => "MonoItems",
            Profiler::DepGraph => "DepGraph",
            Profiler::LlvmIr => "LlvmIr",
        }
    }
}

impl PerfTool {
    /// The name by which the compiler shim knows the tool: the name of the
    /// variant inside.
    pub open spec fn spec_name(self) -> Seq<char> {
        match self {
            PerfTool::BenchTool(b) => b.spec_name(),
            PerfTool::ProfileTool(p) => p.spec_name(),
        }
    }

    pub fn name(&self) -> (r: String)
        ensures
            r@ == self.spec_name(),
    {
        match self {
            PerfTool::BenchTool(b) => b.name().to_owned(),
            PerfTool::ProfileTool(p) => p.name().to_owned(),
        }
    }

    /// The cargo subcommand a tool needs for a profile, `None` where the tool
    /// cannot measure that profile. Only the line counter has a subcommand of
    /// its own, and only for builds that generate code; every other tool
    /// runs under `rustc`, or `rustdoc` for documentation builds.
    pub open spec fn spec_cargo_subcommand(self, profile: Profile) -> Option<Seq<char>> {
        if self == PerfTool::ProfileTool(Profiler::LlvmLines) {
            if profile == Profile::Debug || profile == Profile::Opt {
                Some("llvm-lines"@)
            } else {
                None
            }
        } else if profile == Profile::Doc {
            Some("rustdoc"@)
        } else {
            Some("rustc"@)
        }
    }

    /// What cargo subcommand do we need to run for this tool? If not `rustc`,
    /// it is a subcommand that itself invokes `rustc`.
    pub fn cargo_subcommand(&self, profile: Profile) -> (r: Option<&'static str>)
        requires
            !(*self == PerfTool::ProfileTool(Profiler::LlvmLines) && profile == Profile::All),
        ensures
            r.is_some() == self.spec_cargo_subcommand(profile).is_some(),
            r matches Some(s) ==> Some(s@) == self.spec_cargo_subcommand(profile),
    {
        match self {
            PerfTool::ProfileTool(Profiler::LlvmLines) => match profile {
                Profile::Debug | Profile::Opt => Some("llvm-lines"),
                Profile::Check | Profile::Doc | Profile::All => None,
            },
            _ => {
                if profile == Profile::Doc {
                    Some("rustdoc")
                } else {
                    Some("rustc")
                }
            },
        }
    }

    /// A tool measures every scenario, with two exceptions: the dependency
    /// graph exists only for incremental builds, and the line counter only
    /// for full ones.
    pub open spec fn spec_is_scenario_allowed(self, scenario: Scenario) -> bool {
        match self {
            PerfTool::ProfileTool(Profiler::DepGraph) => scenario != Scenario::Full,
            PerfTool::ProfileTool(Profiler::LlvmLines) => scenario == Scenario::Full,
            _ => true,
        }
    }

    pub fn is_scenario_allowed(&self, scenario: Scenario) -> (r: bool)
        ensures
            r == self.spec_is_scenario_allowed(scenario),
    {
        match self {
            PerfTool::ProfileTool(Profiler::DepGraph) => scenario != Scenario::Full,
            PerfTool::ProfileTool(Profiler::LlvmLines) => scenario == Scenario::Full,
            _ => true,
        }
    }
}

} // verus!
