//! The result aggregator: per-build tallies, the retention decision, and
//! the deterministic ordering of the final report.
//!
//! Rendering the report and writing output files happen outside the
//! library; the aggregator's counting, what is kept for the report, where
//! an output file is placed, and the final sort are verified.

use vstd::prelude::*;

use vstd::multiset::Multiset;

use crate::analyze::{CrateAnalysis, DivergingDiff};
use crate::fs::path_join;
use crate::selector::{CrateName, GitRepo, NormalPath};
use crate::strutil::{dec_str, digit_char, digit_str, u64_to_string};

verus! {

broadcast use vstd::seq_lib::group_to_multiset_ensures, vstd::multiset::group_multiset_axioms;

/// Lexicographic comparison of character sequences by code point.
pub open spec fn lex_cmp(a: Seq<char>, b: Seq<char>) -> std::cmp::Ordering
    decreases a.len(),
{
    if a.len() == 0 && b.len() == 0 {
        std::cmp::Ordering::Equal
    } else if a.len() == 0 {
        std::cmp::Ordering::Less
    } else if b.len() == 0 {
        std::cmp::Ordering::Greater
    } else if (a[0] as int) < (b[0] as int) {
        std::cmp::Ordering::Less
    } else if (a[0] as int) > (b[0] as int) {
        std::cmp::Ordering::Greater
    } else {
        lex_cmp(a.drop_first(), b.drop_first())
    }
}

/// `a` sorts at or before `b`.
pub open spec fn lex_leq(a: Seq<char>, b: Seq<char>) -> bool {
    lex_cmp(a, b) != std::cmp::Ordering::Greater
}

/// The lexicographic order is total.
pub proof fn lemma_lex_total(a: Seq<char>, b: Seq<char>)
    ensures
        lex_leq(a, b) || lex_leq(b, a),
    decreases a.len(),
{
    if a.len() > 0 && b.len() > 0 && a[0] == b[0] {
        lemma_lex_total(a.drop_first(), b.drop_first());
    }
}

/// The lexicographic order is transitive.
pub proof fn lemma_lex_trans(a: Seq<char>, b: Seq<char>, c: Seq<char>)
    requires
        lex_leq(a, b),
        lex_leq(b, c),
    ensures
        lex_leq(a, c),
    decreases a.len(),
{
    if a.len() > 0 && b.len() > 0 && c.len() > 0 && a[0] == b[0] && b[0] == c[0] {
        lemma_lex_trans(a.drop_first(), b.drop_first(), c.drop_first());
    }
}

/// Compare two strings lexicographically by code point.
pub fn str_cmp(a: &str, b: &str) -> (r: std::cmp::Ordering)
    ensures
        r == lex_cmp(a@, b@),
{
    let al: usize = a.unicode_len();
    let bl: usize = b.unicode_len();
    let mut i: usize = 0;
    proof {
        assert(a@.skip(0) =~= a@);
        assert(b@.skip(0) =~= b@);
    }
    while i < al && i < bl
        invariant
            al == a@.len(),
            bl == b@.len(),
            i <= al,
            i <= bl,
            lex_cmp(a@, b@) == lex_cmp(a@.skip(i as int), b@.skip(i as int)),
        decreases al - i,
    {
        let ca = a.get_char(i);
        let cb = b.get_char(i);
        proof {
            assert(a@.skip(i as int)[0] == a@[i as int]);
            assert(b@.skip(i as int)[0] == b@[i as int]);
            assert(a@.skip(i as int).drop_first() =~= a@.skip(i + 1));
            assert(b@.skip(i as int).drop_first() =~= b@.skip(i + 1));
        }
        if (ca as u32) < (cb as u32) {
            return std::cmp::Ordering::Less;
        }
        if (ca as u32) > (cb as u32) {
            return std::cmp::Ordering::Greater;
        }
        i = i + 1;
    }
    if al == bl {
        std::cmp::Ordering::Equal
    } else if i < bl {
        std::cmp::Ordering::Less
    } else {
        std::cmp::Ordering::Greater
    }
}

/// One build's presence in the final report: where its diff and error
/// texts were written, if anywhere, and how long the invocation took.
pub struct FmtOutput {
    pub diff_output_file: Option<String>,
    pub error_output_file: Option<String>,
    pub elapsed: String,
}

/// One retained row of the final report.
pub struct CrateReport {
    pub crate_name: CrateName,
    pub local_root: String,
    pub repo_url: GitRepo,
    pub head_branch: String,
    pub diverged: bool,
    pub similar_errors: bool,
    pub meta_diff_file: Option<String>,
    pub upstream_rustfmt_output: FmtOutput,
    pub local_rustfmt_output: FmtOutput,
}

impl CrateReport {
    /// Assemble one report row.
    pub fn new(
        crate_name: CrateName,
        local_root: String,
        repo_url: GitRepo,
        head_branch: String,
        diverged: bool,
        similar_errors: bool,
        meta_diff_file: Option<String>,
        upstream_rustfmt_output: FmtOutput,
        local_rustfmt_output: FmtOutput,
    ) -> (r: Self)
        ensures
            r == (CrateReport {
                crate_name,
                local_root,
                repo_url,
                head_branch,
                diverged,
                similar_errors,
                meta_diff_file,
                upstream_rustfmt_output,
                local_rustfmt_output,
            }),
    {
        CrateReport {
            crate_name,
            local_root,
            repo_url,
            head_branch,
            diverged,
            similar_errors,
            meta_diff_file,
            upstream_rustfmt_output,
            local_rustfmt_output,
        }
    }

    /// Whether either build's invocation failed.
    pub fn has_error(&self) -> (r: bool)
        ensures
            r == (self.upstream_rustfmt_output.error_output_file is Some
                || self.local_rustfmt_output.error_output_file is Some),
    {
        self.upstream_rustfmt_output.error_output_file.is_some()
            || self.local_rustfmt_output.error_output_file.is_some()
    }

    /// Whether either build produced a diff.
    pub fn has_diff(&self) -> (r: bool)
        ensures
            r == (self.upstream_rustfmt_output.diff_output_file is Some
                || self.local_rustfmt_output.diff_output_file is Some),
    {
        self.upstream_rustfmt_output.diff_output_file.is_some()
            || self.local_rustfmt_output.diff_output_file.is_some()
    }

    /// The row's triage rank: diverged rows outrank erroring rows, which
    /// outrank diffing rows; ties fall back to the crate name.
    pub open spec fn spec_cmp(a: CrateReport, b: CrateReport) -> std::cmp::Ordering {
        let a_err = a.upstream_rustfmt_output.error_output_file is Some
            || a.local_rustfmt_output.error_output_file is Some;
        let b_err = b.upstream_rustfmt_output.error_output_file is Some
            || b.local_rustfmt_output.error_output_file is Some;
        let a_diff = a.upstream_rustfmt_output.diff_output_file is Some
            || a.local_rustfmt_output.diff_output_file is Some;
        let b_diff = b.upstream_rustfmt_output.diff_output_file is Some
            || b.local_rustfmt_output.diff_output_file is Some;
        if a.diverged && !b.diverged {
            std::cmp::Ordering::Greater
        } else if !a.diverged && b.diverged {
            std::cmp::Ordering::Less
        } else if a_err && !b_err {
            std::cmp::Ordering::Greater
        } else if !a_err && b_err {
            std::cmp::Ordering::Less
        } else if a_diff && !b_diff {
            std::cmp::Ordering::Greater
        } else if !a_diff && b_diff {
            std::cmp::Ordering::Less
        } else {
            lex_cmp(a.crate_name.0.0@, b.crate_name.0.0@)
        }
    }

    /// Compare two rows by triage rank.
    pub fn cmp(&self, other: &Self) -> (r: std::cmp::Ordering)
        ensures
            r == CrateReport::spec_cmp(*self, *other),
    {
        if self.diverged && !other.diverged {
            return std::cmp::Ordering::Greater;
        }
        if !self.diverged && other.diverged {
            return std::cmp::Ordering::Less;
        }
        if self.has_error() && !other.has_error() {
            return std::cmp::Ordering::Greater;
        }
        if !self.has_error() && other.has_error() {
            return std::cmp::Ordering::Less;
        }
        if self.has_diff() && !other.has_diff() {
            return std::cmp::Ordering::Greater;
        }
        if !self.has_diff() && other.has_diff() {
            return std::cmp::Ordering::Less;
        }
        str_cmp(self.crate_name.0.0.as_str(), other.crate_name.0.0.as_str())
    }
}

/// Whether a meta diff — the diff between the two builds' diff outputs —
/// is to be produced: only when the builds diffed differently and both
/// diff outputs were written to files.
pub fn should_write_meta_diff(
    diverging: &DivergingDiff,
    upstream_diff_file: &Option<String>,
    local_diff_file: &Option<String>,
) -> (r: bool)
    ensures
        r == (*diverging == DivergingDiff::DiffBetween && upstream_diff_file is Some
            && local_diff_file is Some),
{
    matches!(diverging, DivergingDiff::DiffBetween) && upstream_diff_file.is_some()
        && local_diff_file.is_some()
}

/// Where the aggregator's output files live.
pub struct OutputDirs {
    pub base: String,
    pub diverged: String,
    pub nondiverged: String,
    pub errors: String,
}

impl OutputDirs {
    /// The three output subdirectories under a base directory.
    pub fn new(base: String) -> (r: Self)
        ensures
            r.base@ == base@,
            r.diverged@ == base@ + "/"@ + "diverged"@,
            r.nondiverged@ == base@ + "/"@ + "nondiverged"@,
            r.errors@ == base@ + "/"@ + "errors"@,
    {
        let diverged = path_join(base.as_str(), "diverged");
        let nondiverged = path_join(base.as_str(), "nondiverged");
        let errors = path_join(base.as_str(), "errors");
        OutputDirs { base, diverged, nondiverged, errors }
    }
}

/// Where an output file goes: error texts into the errors directory, and
/// diffs into the diverged or non-diverged directory by the row's class.
pub fn place_file(output: &OutputDirs, file_name: &NormalPath, diverged: bool, err: bool) -> (r:
    String)
    ensures
        err ==> r@ == output.errors@ + "/"@ + file_name.0@,
        !err && diverged ==> r@ == output.diverged@ + "/"@ + file_name.0@,
        !err && !diverged ==> r@ == output.nondiverged@ + "/"@ + file_name.0@,
{
    if err {
        path_join(output.errors.as_str(), file_name.0.as_str())
    } else if diverged {
        path_join(output.diverged.as_str(), file_name.0.as_str())
    } else {
        path_join(output.nondiverged.as_str(), file_name.0.as_str())
    }
}

/// An elapsed duration rendered as seconds with two decimals: `S.CCs`.
pub fn fmt_elapsed(elapsed_millis: u64) -> (r: String)
    ensures
        ({
            let secs = elapsed_millis / 1000;
            let centis = (elapsed_millis % 1000) / 10;
            r@ == dec_str(secs as int) + "."@ + seq![
                digit_char(centis as int / 10),
                digit_char(centis as int % 10),
            ] + "s"@
        }),
{
    let secs: u64 = elapsed_millis / 1000;
    let centis: u64 = (elapsed_millis % 1000) / 10;
    let mut s = u64_to_string(secs);
    s.append(".");
    s.append(digit_str(centis / 10));
    s.append(digit_str(centis % 10));
    s.append("s");
    proof {
        reveal_strlit(".");
        reveal_strlit("s");
    }
    s
}

/// The aggregator: output locations, per-build tallies, and the retained
/// report rows.
pub struct AnalysisReport {
    pub output: OutputDirs,
    pub num_diverging_diffs: u64,
    pub num_upstream_failures: u64,
    pub num_upstream_diffs: u64,
    pub num_upstream_successes: u64,
    pub num_local_failures: u64,
    pub num_local_diffs: u64,
    pub num_local_successes: u64,
    pub crate_reports: Vec<CrateReport>,
}

/// One where the indicator holds.
pub open spec fn ind(b: bool) -> int {
    if b {
        1int
    } else {
        0int
    }
}

impl AnalysisReport {
    /// A fresh aggregator writing under the given output directory.
    pub fn new(output_dir: String) -> (r: Self)
        ensures
            r.output.base@ == output_dir@,
            r.num_diverging_diffs == 0,
            r.num_upstream_failures == 0,
            r.num_upstream_diffs == 0,
            r.num_upstream_successes == 0,
            r.num_local_failures == 0,
            r.num_local_diffs == 0,
            r.num_local_successes == 0,
            r.crate_reports@ == Seq::<CrateReport>::empty(),
    {
        AnalysisReport {
            output: OutputDirs::new(output_dir),
            num_diverging_diffs: 0,
            num_upstream_failures: 0,
            num_upstream_diffs: 0,
            num_upstream_successes: 0,
            num_local_failures: 0,
            num_local_diffs: 0,
            num_local_successes: 0,
            crate_reports: Vec::new(),
        }
    }

    /// Take one completed analysis into the tallies and decide whether its
    /// row is retained: a row is kept when it diverged, when non-diverging
    /// rows are not skipped, or when it surfaced a new failure. Non-kept
    /// results still count toward every tally.
    pub fn add_result(
        &mut self,
        cr: CrateAnalysis,
        similar_errors: bool,
        upstream_out: FmtOutput,
        local_out: FmtOutput,
        meta_diff_file: Option<String>,
        skip_non_diverging_diffs: bool,
    ) -> (kept: bool)
        requires
            old(self).num_diverging_diffs < u64::MAX,
            old(self).num_upstream_failures < u64::MAX,
            old(self).num_upstream_diffs < u64::MAX,
            old(self).num_upstream_successes < u64::MAX,
            old(self).num_local_failures < u64::MAX,
            old(self).num_local_diffs < u64::MAX,
            old(self).num_local_successes < u64::MAX,
        ensures
            ({
                let u = cr.upstream_rustfmt_analysis;
                let l = cr.local_rustfmt_analysis;
                let diverged = cr.diverging_diff != DivergingDiff::NoDivergence;
                let failed = u.rustfmt_error is Some || l.rustfmt_error is Some;
                &&& final(self).output == old(self).output
                &&& final(self).num_diverging_diffs == old(self).num_diverging_diffs + ind(
                    diverged,
                )
                &&& final(self).num_upstream_successes == old(self).num_upstream_successes + ind(
                    u.rustfmt_error is None && u.diff_output is None,
                )
                &&& final(self).num_upstream_diffs == old(self).num_upstream_diffs + ind(
                    u.diff_output is Some,
                )
                &&& final(self).num_upstream_failures == old(self).num_upstream_failures + ind(
                    u.rustfmt_error is Some,
                )
                &&& final(self).num_local_successes == old(self).num_local_successes + ind(
                    l.rustfmt_error is None && l.diff_output is None,
                )
                &&& final(self).num_local_diffs == old(self).num_local_diffs + ind(
                    l.diff_output is Some,
                )
                &&& final(self).num_local_failures == old(self).num_local_failures + ind(
                    l.rustfmt_error is Some,
                )
                &&& kept == (diverged || !skip_non_diverging_diffs || failed)
                &&& kept ==> final(self).crate_reports@ == old(self).crate_reports@.push(
                    CrateReport {
                        crate_name: cr.crate_name,
                        local_root: cr.local_root,
                        repo_url: cr.crate_url,
                        head_branch: cr.head_branch,
                        diverged,
                        similar_errors,
                        meta_diff_file,
                        upstream_rustfmt_output: upstream_out,
                        local_rustfmt_output: local_out,
                    },
                )
                &&& !kept ==> final(self).crate_reports@ == old(self).crate_reports@
            }),
    {
        let diverged = cr.diverging_diff.diverged();
        let failed = cr.upstream_rustfmt_analysis.rustfmt_error.is_some()
            || cr.local_rustfmt_analysis.rustfmt_error.is_some();
        if diverged {
            self.num_diverging_diffs = self.num_diverging_diffs + 1;
        }
        if cr.upstream_rustfmt_analysis.rustfmt_error.is_none()
            && cr.upstream_rustfmt_analysis.diff_output.is_none() {
            self.num_upstream_successes = self.num_upstream_successes + 1;
        }
        if cr.upstream_rustfmt_analysis.diff_output.is_some() {
            self.num_upstream_diffs = self.num_upstream_diffs + 1;
        }
        if cr.upstream_rustfmt_analysis.rustfmt_error.is_some() {
            self.num_upstream_failures = self.num_upstream_failures + 1;
        }
        if cr.local_rustfmt_analysis.rustfmt_error.is_none()
            && cr.local_rustfmt_analysis.diff_output.is_none() {
            self.num_local_successes = self.num_local_successes + 1;
        }
        if cr.local_rustfmt_analysis.diff_output.is_some() {
            self.num_local_diffs = self.num_local_diffs + 1;
        }
        if cr.local_rustfmt_analysis.rustfmt_error.is_some() {
            self.num_local_failures = self.num_local_failures + 1;
        }
        let kept = diverged || !skip_non_diverging_diffs || failed;
        if kept {
            self.crate_reports.push(
                CrateReport {
                    crate_name: cr.crate_name,
                    local_root: cr.local_root,
                    repo_url: cr.crate_url,
                    head_branch: cr.head_branch,
                    diverged,
                    similar_errors,
                    meta_diff_file,
                    upstream_rustfmt_output: upstream_out,
                    local_rustfmt_output: local_out,
                },
            );
        }
        kept
    }

    /// Order the retained rows by crate name for deterministic output, and
    /// hand the aggregator back for rendering.
    pub fn finish_report(self) -> (r: Self)
        ensures
            r.output == self.output,
            r.num_diverging_diffs == self.num_diverging_diffs,
            r.num_upstream_failures == self.num_upstream_failures,
            r.num_upstream_diffs == self.num_upstream_diffs,
            r.num_upstream_successes == self.num_upstream_successes,
            r.num_local_failures == self.num_local_failures,
            r.num_local_diffs == self.num_local_diffs,
            r.num_local_successes == self.num_local_successes,
            r.crate_reports@.to_multiset() == self.crate_reports@.to_multiset(),
            sorted_by_name(r.crate_reports@),
    {
        let mut s = self;
        let sorted = sort_reports(s.crate_reports);
        s.crate_reports = sorted;
        s
    }
}

/// The rows are in crate-name order.
pub open spec fn sorted_by_name(rows: Seq<CrateReport>) -> bool {
    forall|i: int, j: int|
        0 <= i < j < rows.len() ==> lex_leq(
            (#[trigger] rows[i]).crate_name.0.0@,
            (#[trigger] rows[j]).crate_name.0.0@,
        )
}

/// Inserting an element anywhere adds exactly it to the multiset.
proof fn lemma_seq_insert_to_multiset(s: Seq<CrateReport>, i: int, x: CrateReport)
    requires
        0 <= i <= s.len(),
    ensures
        s.insert(i, x).to_multiset() == s.to_multiset().insert(x),
{
    let s2 = s.insert(i, x);
    assert(s2.remove(i) =~= s);
    assert(s2[i] == x);
    assert(s2.remove(i).to_multiset() == s2.to_multiset().remove(s2[i]));
    assert(s2.contains(x));
    assert(s2.to_multiset().count(x) > 0);
    assert(s2.to_multiset() =~= s.to_multiset().insert(x));
}

/// Sort report rows by crate name with binary-free insertion.
fn sort_reports(rows: Vec<CrateReport>) -> (r: Vec<CrateReport>)
    ensures
        r@.to_multiset() == rows@.to_multiset(),
        sorted_by_name(r@),
{
    let mut rest = rows;
    let ghost all = rest@;
    let mut out: Vec<CrateReport> = Vec::new();
    proof {
        assert(out@ + rest@ =~= rest@);
        assert(out@.to_multiset().add(rest@.to_multiset()) =~= all.to_multiset()) by {
            assert(out@.to_multiset() =~= Multiset::<CrateReport>::empty());
        }
    }
    while rest.len() > 0
        invariant
            out@.to_multiset().add(rest@.to_multiset()) == all.to_multiset(),
            sorted_by_name(out@),
        decreases rest@.len(),
    {
        let ghost rb = rest@;
        let x = rest.remove(0);
        proof {
            assert(rb.to_multiset().count(x) > 0) by {
                assert(rb.contains(x));
            }
            assert(rest@.to_multiset() == rb.to_multiset().remove(x)) by {
                assert(rb.remove(0).to_multiset() == rb.to_multiset().remove(rb[0]));
            }
        }
        // Find the insertion point: the first row that must come after x.
        let mut p: usize = 0;
        let n = out.len();
        while p < n && leq_by_name(&out[p], &x)
            invariant
                n == out@.len(),
                p <= n,
                forall|t: int|
                    0 <= t < p ==> lex_leq((#[trigger] out@[t]).crate_name.0.0@, x.crate_name.0.0@),
            decreases n - p,
        {
            p = p + 1;
        }
        proof {
            if p < out@.len() {
                lemma_lex_total(out@[p as int].crate_name.0.0@, x.crate_name.0.0@);
            }
        }
        let ghost out_before = out@;
        out.insert(p, x);
        proof {
            lemma_seq_insert_to_multiset(out_before, p as int, x);
            assert(out@.to_multiset().add(rest@.to_multiset()) =~= all.to_multiset());
            let pi = p as int;
            assert forall|w: int| pi <= w < out_before.len() implies lex_leq(
                x.crate_name.0.0@,
                (#[trigger] out_before[w]).crate_name.0.0@,
            ) by {
                if w > pi {
                    lemma_lex_trans(
                        x.crate_name.0.0@,
                        out_before[pi].crate_name.0.0@,
                        out_before[w].crate_name.0.0@,
                    );
                }
            }
            assert(sorted_by_name(out@)) by {
                assert forall|i: int, j: int| 0 <= i < j < out@.len() implies lex_leq(
                    (#[trigger] out@[i]).crate_name.0.0@,
                    (#[trigger] out@[j]).crate_name.0.0@,
                ) by {
                    if i < pi && j < pi {
                        assert(out@[i] == out_before[i] && out@[j] == out_before[j]);
                    } else if i < pi && j == pi {
                        assert(out@[i] == out_before[i]);
                    } else if i < pi && j > pi {
                        assert(out@[i] == out_before[i] && out@[j] == out_before[j - 1]);
                        lemma_lex_trans(
                            out@[i].crate_name.0.0@,
                            x.crate_name.0.0@,
                            out_before[j - 1].crate_name.0.0@,
                        );
                    } else if i == pi && j > pi {
                        assert(out@[j] == out_before[j - 1]);
                    } else {
                        assert(out@[i] == out_before[i - 1] && out@[j] == out_before[j - 1]);
                    }
                }
            }
        }
    }
    proof {
        assert(rest@.to_multiset() =~= Multiset::<CrateReport>::empty());
        assert(out@.to_multiset() =~= all.to_multiset());
    }
    out
}

/// Whether `a`'s crate name sorts at or before `b`'s.
fn leq_by_name(a: &CrateReport, b: &CrateReport) -> (r: bool)
    ensures
        r == lex_leq(a.crate_name.0.0@, b.crate_name.0.0@),
{
    !matches!(
        str_cmp(a.crate_name.0.0.as_str(), b.crate_name.0.0.as_str()),
        std::cmp::Ordering::Greater
    )
}

} // verus!
