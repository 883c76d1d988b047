//! Benchmark execution engine for a compiler performance collector.
//!
//! The crate holds the decisions of the engine: which compiler invocation a
//! measurement needs, how captured output turns into statistics, when a
//! measurement is retried, and in which order the scenarios of a benchmark
//! run. Spawning processes and touching the file system is left to the
//! caller, which performs the actions that the state machines here hand out
//! and reports what came of them.
//!
//! - [`tool`]: profiles, scenarios, and what each measurement tool can do.
//! - [`benchmark`], [`patch`]: a benchmark, its options and its patches.
//! - [`cargo_process`]: one invocation of the compiler through cargo, and
//!   the loop that repeats it until its output is accepted.
//! - [`measure`]: the measurement of a benchmark, profile by profile,
//!   iteration by iteration, scenario by scenario.
//! - [`stat_output`], [`stats`]: the output of a measured invocation, and
//!   the statistics read from it.
//! - [`processor`], [`bench_processor`]: what is done with the output, and
//!   the processor that records it.
//! - [`upload`]: sending raw self-instrumentation files to bulk storage.
//! - [`text`], [`numeral`]: the text handling that the rest is written in.

pub use bench_processor::BenchProcessor;
pub use benchmark::{default_runs, Benchmark, BenchmarkName};
pub use patch::Patch;
pub use processor::{ProcessOutputData, Processor, Retry};
pub use stats::{ArtifactSize, QueryData, SelfProfile, Stats};
pub use tool::{Bencher, PerfTool};

pub mod bench_processor;
pub mod benchmark;
pub mod cargo_process;
pub mod measure;
pub mod numeral;
pub mod patch;
pub mod processor;
pub mod stat_output;
pub mod stats;
pub mod text;
pub mod tool;
pub mod upload;
