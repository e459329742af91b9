//! Differential testing pipeline for a source-code formatter.
//!
//! The library selects a bounded set of popular packages from a streamed
//! registry dump, acquires their sources, runs two formatter builds over each
//! workspace, classifies how the two outputs diverge, and aggregates the
//! results into a report. The surrounding process I/O — network, git,
//! process spawning — lives outside the library; everything here is the
//! decision and bookkeeping logic of that pipeline, stated in contracts and
//! verified.

use vstd::prelude::*;

pub mod analyze;
pub mod api;
pub mod bridge;
pub mod cargo;
pub mod cmd;
pub mod consumer;
pub mod csv_parse;
pub mod error;
pub mod fs;
pub mod git;
pub mod local_crates;
pub mod logfilter;
pub mod pool;
pub mod repo;
pub mod report;
pub mod selector;
pub mod stop;
pub mod strutil;

pub use crate::analyze::AnalyzeArgs;
pub use crate::error::{unpack, ErrFmt};
pub use crate::selector::ConsumerOpts;

verus! {

/// Where the run's packages come from: the registry dump, or a directory
/// of already-acquired crates.
pub enum CrateSource {
    GitSync(GitSyncConfig),
    LocalCrates(LocalCratesConfig),
}

/// Configuration of the registry-driven acquisition.
pub struct GitSyncConfig {
    /// How old the cached dump may grow, in days, before it is re-fetched.
    pub crates_index_max_age_days: u8,
    /// Hard-reset previously cloned checkouts to the remote default branch.
    pub git_resync_before: bool,
    /// How many clones or fetches may run concurrently; at least one.
    pub git_clone_max_concurrent: usize,
}

/// Configuration of the local-directory source.
pub struct LocalCratesConfig {
    /// The directory whose immediate subdirectories are the crates.
    pub crate_dir: String,
}

/// The command line the program is driven by, as plain values.
pub struct Args {
    pub workdir: String,
    pub output_dir: Option<String>,
    pub rustfmt_local_repo: String,
    pub rustfmt_upstream_repo: String,
    pub crates_index_max_age: u8,
    pub git_resync_before: bool,
    pub git_sync_max_concurrent: usize,
    pub max_crates: usize,
    pub min_size: u64,
    pub exclude_crate_name_contains: Vec<String>,
    pub exclude_repository_contains: Vec<String>,
    pub no_output_files: bool,
    pub report_dest: Option<String>,
    pub report_non_diverging: bool,
    pub analysis_max_concurrent: Option<usize>,
    pub analysis_task_timeout_seconds: u32,
    pub config: Option<String>,
    pub verbosity: u8,
}

} // verus!
