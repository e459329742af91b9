//! Per-workspace analysis: the cross-run deduplication set, and the
//! divergence classification of the two formatter outcomes.
//!
//! The identity set is the `dashmap` crate's concurrent set behind trusted
//! wrappers; insert-if-absent over its contents is what gates duplicate
//! analysis. Everything downstream of the two (externally run) formatter
//! invocations — classification and assembly of the analysis record — is
//! verified.

use vstd::prelude::*;

use dashmap::DashSet;

use crate::selector::{CrateName, GitRepo};

verus! {

#[verifier::external_type_specification]
#[verifier::external_body]
#[verifier::reject_recursive_types(K)]
#[verifier::reject_recursive_types(S)]
pub struct ExDashSet<K, S>(DashSet<K, S>);

/// The set of workspace identities already analyzed, as the views of the
/// strings the set holds.
pub uninterp spec fn seen_idents(s: DashSet<String>) -> Set<Seq<char>>;

/// Relies on dashmap::DashSet::insert: inserts the key and returns true
/// exactly when the key was not already present.
#[verifier::external_body]
fn seen_set_insert(s: &mut DashSet<String>, key: String) -> (r: bool)
    ensures
        r == !seen_idents(*old(s)).contains(key@),
        seen_idents(*final(s)) == seen_idents(*old(s)).insert(key@),
{
    s.insert(key)
}

/// The identity a workspace is deduplicated by: its repository reference
/// and its local root, joined by a colon.
pub open spec fn spec_workspace_ident(repository: Seq<char>, repo_root: Seq<char>) -> Seq<char> {
    repository + ":"@ + repo_root
}

/// Gate a workspace: record its identity in the seen set, and say whether
/// this is its first sighting — only then is it analyzed. Inserting the
/// same identity twice answers true, then false.
pub fn should_analyze(seen: &mut DashSet<String>, repository: &GitRepo, repo_root: &str) -> (r:
    bool)
    ensures
        r == !seen_idents(*old(seen)).contains(
            spec_workspace_ident(repository.0@, repo_root@),
        ),
        seen_idents(*final(seen)) == seen_idents(*old(seen)).insert(
            spec_workspace_ident(repository.0@, repo_root@),
        ),
{
    let mut ident = repository.0.clone();
    ident.append(":");
    ident.append(repo_root);
    seen_set_insert(seen, ident)
}

/// Law: deduplication admits an identity exactly once. Starting from any
/// seen set not yet holding the identity, the first insertion answers true
/// and the second answers false — only the first proceeds to analysis.
pub proof fn lemma_dedup_admits_once(s0: Set<Seq<char>>, ident: Seq<char>)
    requires
        !s0.contains(ident),
    ensures
        ({
            let first_admitted = !s0.contains(ident);
            let second_admitted = !s0.insert(ident).contains(ident);
            first_admitted == true && second_admitted == false
        }),
{
}

/// How the two formatter builds disagreed on one workspace.
#[derive(Copy, Clone, Eq, PartialEq, Structural, Debug)]
pub enum DivergingDiff {
    /// Only the local (candidate) build produced a diff.
    LocalOnly,
    /// Only the upstream (reference) build produced a diff.
    UpstreamOnly,
    /// Both produced a diff, but the diff texts differ.
    DiffBetween,
    /// The outcomes agree.
    NoDivergence,
}

impl DivergingDiff {
    /// True unless the outcomes agree.
    pub fn diverged(self) -> (r: bool)
        ensures
            r == (self != DivergingDiff::NoDivergence),
    {
        !matches!(self, DivergingDiff::NoDivergence)
    }
}

/// The text of an optional diff output, as a sequence of characters.
pub open spec fn spec_opt_text(s: Option<String>) -> Option<Seq<char>> {
    match s {
        Option::Some(t) => Option::Some(t@),
        Option::None => Option::None,
    }
}

/// The class the pair of diff outputs falls in: `None` when both builds
/// agree (no diff on either side, or the same diff text), `LocalOnly` or
/// `UpstreamOnly` when exactly one side diffed, `DiffBetween` when both
/// diffed differently.
pub open spec fn spec_classify(
    upstream_diff: Option<Seq<char>>,
    local_diff: Option<Seq<char>>,
) -> DivergingDiff {
    match (upstream_diff, local_diff) {
        (Option::None, Option::None) => DivergingDiff::NoDivergence,
        (Option::Some(_), Option::None) => DivergingDiff::UpstreamOnly,
        (Option::None, Option::Some(_)) => DivergingDiff::LocalOnly,
        (Option::Some(u), Option::Some(l)) => if u == l {
            DivergingDiff::NoDivergence
        } else {
            DivergingDiff::DiffBetween
        },
    }
}

/// Classify the divergence between the two builds' diff outputs.
pub fn classify_diverging_diff(
    upstream_diff: &Option<String>,
    local_diff: &Option<String>,
) -> (r: DivergingDiff)
    ensures
        r == spec_classify(spec_opt_text(*upstream_diff), spec_opt_text(*local_diff)),
{
    match (upstream_diff, local_diff) {
        (Option::None, Option::None) => DivergingDiff::NoDivergence,
        (Option::Some(_), Option::None) => DivergingDiff::UpstreamOnly,
        (Option::None, Option::Some(_)) => DivergingDiff::LocalOnly,
        (Option::Some(u), Option::Some(l)) => {
            if u.eq(l) {
                DivergingDiff::NoDivergence
            } else {
                DivergingDiff::DiffBetween
            }
        },
    }
}

/// What the analysis stage is configured with: the two formatter source
/// trees, where the report goes, extra formatter configuration, and which
/// results are written out.
#[derive(Clone)]
pub struct AnalyzeArgs {
    pub rustfmt_repo: String,
    pub rustfmt_upstream_repo: String,
    pub report_dest: Option<String>,
    pub config: Option<String>,
    pub write_outputs: bool,
    pub skip_non_diverging_diffs: bool,
    pub diff_tool: Option<String>,
}

/// One build's outcome on one workspace: a diff text when it would
/// reformat, an error message when the invocation failed, and how long it
/// took, in milliseconds.
pub struct RustfmtAnalysis {
    pub diff_output: Option<String>,
    pub rustfmt_error: Option<String>,
    pub elapsed_millis: u64,
}

/// The completed analysis of one workspace under both builds.
pub struct CrateAnalysis {
    pub crate_name: CrateName,
    pub local_root: String,
    pub crate_url: GitRepo,
    pub head_branch: String,
    pub diverging_diff: DivergingDiff,
    pub upstream_rustfmt_analysis: RustfmtAnalysis,
    pub local_rustfmt_analysis: RustfmtAnalysis,
}

/// How a pair of per-build analyses classifies: when the candidate build's
/// invocation failed, no divergence is recorded; otherwise the diff outputs
/// are compared.
pub open spec fn spec_classify_analyses(
    upstream: RustfmtAnalysis,
    local: RustfmtAnalysis,
) -> DivergingDiff {
    if local.rustfmt_error is Some {
        DivergingDiff::NoDivergence
    } else {
        spec_classify(spec_opt_text(upstream.diff_output), spec_opt_text(local.diff_output))
    }
}

/// Classify the divergence between the two per-build analyses.
pub fn classify_analyses(upstream: &RustfmtAnalysis, local: &RustfmtAnalysis) -> (r: DivergingDiff)
    ensures
        r == spec_classify_analyses(*upstream, *local),
{
    if local.rustfmt_error.is_some() {
        DivergingDiff::NoDivergence
    } else {
        classify_diverging_diff(&upstream.diff_output, &local.diff_output)
    }
}

impl CrateAnalysis {
    /// Assemble the completed analysis of one workspace, classifying the
    /// divergence from the two per-build analyses.
    pub fn new(
        crate_name: CrateName,
        local_root: String,
        crate_url: GitRepo,
        head_branch: String,
        upstream_rustfmt_analysis: RustfmtAnalysis,
        local_rustfmt_analysis: RustfmtAnalysis,
    ) -> (r: Self)
        ensures
            r.crate_name == crate_name,
            r.local_root == local_root,
            r.crate_url == crate_url,
            r.head_branch == head_branch,
            r.diverging_diff == spec_classify_analyses(
                upstream_rustfmt_analysis,
                local_rustfmt_analysis,
            ),
            r.upstream_rustfmt_analysis == upstream_rustfmt_analysis,
            r.local_rustfmt_analysis == local_rustfmt_analysis,
    {
        let diverging_diff = classify_analyses(&upstream_rustfmt_analysis, &local_rustfmt_analysis);
        CrateAnalysis {
            crate_name,
            local_root,
            crate_url,
            head_branch,
            diverging_diff,
            upstream_rustfmt_analysis,
            local_rustfmt_analysis,
        }
    }
}

} // verus!
