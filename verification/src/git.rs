//! Source acquisition: parsing the version-control tool's output, and the
//! per-candidate acquisition decisions.
//!
//! Running the tool is I/O and lives outside the library; what is verified
//! here is every decision made on its output: finding the remote HEAD
//! branch, guessing the remote name, reading the remote listing, and the
//! plan — clone or reuse, gate, resync, emit — for each candidate.

use vstd::prelude::*;

use crate::selector::PrunedCrate;
use crate::strutil::{
    contains_seq, find_from, is_prefix, lemma_find_none, lemma_find_some_in_range,
    lemma_trim_char_in_orig, lines_from, match_at, seq_views, spec_trim, split_lines,
    str_contains, str_find_char, str_starts_with, str_trim,
};

verus! {

/// One unit of analysis work: an acquired source tree, its detected default
/// branch when one was found, and the candidate it came from.
pub struct CrateReadyForAnalysis {
    pub repo_root: String,
    pub head_branch: Option<String>,
    pub pruned_crate: PrunedCrate,
}

/// The marker line of the remote listing that carries the HEAD branch.
pub open spec fn hb_marker() -> Seq<char> {
    "HEAD branch:"@
}

/// The marker line of the remote listing that carries the fetch URL.
pub open spec fn fu_marker() -> Seq<char> {
    "Fetch URL:"@
}

/// What follows the first colon of the line, trimmed; empty when the line
/// has no colon.
pub open spec fn after_colon_trim(line: Seq<char>) -> Seq<char> {
    match find_from(line, ':', 0) {
        Option::Some(k) => spec_trim(line.subrange(k + 1, line.len() as int)),
        Option::None => Seq::empty(),
    }
}

/// The branch name carried by the first line containing the HEAD-branch
/// marker: what follows that line's first colon, trimmed.
pub open spec fn head_branch_in(lines: Seq<Seq<char>>) -> Option<Seq<char>>
    decreases lines.len(),
{
    if lines.len() == 0 {
        Option::None
    } else if contains_seq(lines[0], hb_marker()) {
        Option::Some(after_colon_trim(lines[0]))
    } else {
        head_branch_in(lines.drop_first())
    }
}

/// The branch name the whole output parses to.
pub open spec fn spec_parse_head_branch(s: Seq<char>) -> Option<Seq<char>> {
    head_branch_in(lines_from(s, 0))
}

/// A line containing a marker that itself contains a colon has a colon.
proof fn lemma_marker_line_has_colon(line: Seq<char>, marker: Seq<char>, ci: int)
    requires
        contains_seq(line, marker),
        0 <= ci < marker.len(),
        marker[ci] == ':',
    ensures
        find_from(line, ':', 0) is Some,
{
    let w = choose|w: int| match_at(line, marker, w);
    assert(line[w + ci] == ':');
    if find_from(line, ':', 0) is None {
        lemma_find_none(line, ':', 0);
    }
}

/// Parse the remote HEAD branch out of the tool's remote-show output: the
/// first line containing the HEAD-branch marker yields what follows its
/// first colon, trimmed; no such line yields nothing.
pub fn parse_head_branch(output: &str) -> (r: Option<String>)
    ensures
        match r {
            Option::Some(b) => spec_parse_head_branch(output@) == Option::Some(b@),
            Option::None => spec_parse_head_branch(output@) is None,
        },
{
    let lines = split_lines(output);
    let ghost lv = seq_views(lines@);
    let n = lines.len();
    let mut i: usize = 0;
    proof {
        assert(lv.skip(0) =~= lv);
    }
    while i < n
        invariant
            n == lines.len(),
            i <= n,
            lv == seq_views(lines@),
            lv == lines_from(output@, 0),
            head_branch_in(lv.skip(i as int)) == head_branch_in(lv),
        decreases n - i,
    {
        let line = &lines[i];
        proof {
            assert(lv.skip(i as int)[0] == line@);
        }
        if str_contains(line.as_str(), "HEAD branch:") {
            proof {
                reveal_strlit("HEAD branch:");
                lemma_marker_line_has_colon(line@, hb_marker(), 11);
            }
            let k = match str_find_char(line.as_str(), ':', 0) {
                Option::Some(k) => k,
                Option::None => {
                    proof {
                        assert(false);
                    }
                    0
                },
            };
            proof {
                lemma_find_some_in_range(line@, ':', 0);
            }
            let len = line.as_str().unicode_len();
            let rest = line.as_str().substring_char(k + 1, len);
            let trimmed = str_trim(rest);
            proof {
                assert(trimmed@ == after_colon_trim(line@));
            }
            return Option::Some(trimmed);
        }
        proof {
            assert(lv.skip(i as int).drop_first() =~= lv.skip(i + 1));
        }
        i = i + 1;
    }
    proof {
        assert(lv.skip(i as int) =~= Seq::<Seq<char>>::empty());
    }
    Option::None
}

/// The remote-name guess over the listing's lines: the first line that trims
/// to `origin` wins; otherwise the last line, trimmed, is carried along.
pub open spec fn guess_remote_in(lines: Seq<Seq<char>>, last: Option<Seq<char>>) -> Option<
    Seq<char>,
>
    decreases lines.len(),
{
    if lines.len() == 0 {
        last
    } else {
        let t = spec_trim(lines[0]);
        if t == "origin"@ {
            Option::Some("origin"@)
        } else {
            guess_remote_in(lines.drop_first(), Option::Some(t))
        }
    }
}

/// Guess which remote to ask about: prefer a line that is exactly `origin`;
/// otherwise fall back to the last listed remote; none when there are no
/// lines at all.
pub fn guess_remote_from_show_output(output: &str) -> (r: Option<String>)
    ensures
        match r {
            Option::Some(g) => guess_remote_in(lines_from(output@, 0), Option::None) == Option::Some(
                g@,
            ),
            Option::None => guess_remote_in(lines_from(output@, 0), Option::None) is None,
        },
{
    let lines = split_lines(output);
    let ghost lv = seq_views(lines@);
    let n = lines.len();
    let mut last: Option<String> = Option::None;
    let origin: String = "origin".to_owned();
    let mut i: usize = 0;
    proof {
        assert(lv.skip(0) =~= lv);
    }
    while i < n
        invariant
            n == lines.len(),
            i <= n,
            lv == seq_views(lines@),
            lv == lines_from(output@, 0),
            origin@ == "origin"@,
            guess_remote_in(lv.skip(i as int), spec_opt_str(last)) == guess_remote_in(
                lv,
                Option::None,
            ),
        decreases n - i,
    {
        let line = &lines[i];
        proof {
            assert(lv.skip(i as int)[0] == line@);
        }
        let t = str_trim(line.as_str());
        if t.eq(&origin) {
            return Option::Some(origin);
        }
        proof {
            assert(lv.skip(i as int).drop_first() =~= lv.skip(i + 1));
        }
        last = Option::Some(t);
        i = i + 1;
    }
    proof {
        assert(lv.skip(i as int) =~= Seq::<Seq<char>>::empty());
    }
    last
}

/// The view of an optional string.
pub open spec fn spec_opt_str(s: Option<String>) -> Option<Seq<char>> {
    match s {
        Option::Some(t) => Option::Some(t@),
        Option::None => Option::None,
    }
}

/// The remote listing folded line by line: a line whose trimmed text starts
/// with a marker overwrites that marker's value with what follows the
/// line's first colon, trimmed — so the last matching line wins.
pub open spec fn remote_fold(
    lines: Seq<Seq<char>>,
    hb: Option<Seq<char>>,
    fu: Option<Seq<char>>,
) -> (Option<Seq<char>>, Option<Seq<char>>)
    decreases lines.len(),
{
    if lines.len() == 0 {
        (hb, fu)
    } else {
        let line = lines[0];
        let t = spec_trim(line);
        let hb2 = if is_prefix(hb_marker(), t) {
            Option::Some(after_colon_trim(line))
        } else {
            hb
        };
        let fu2 = if is_prefix(fu_marker(), t) {
            Option::Some(after_colon_trim(line))
        } else {
            fu
        };
        remote_fold(lines.drop_first(), hb2, fu2)
    }
}

/// A line whose trimmed text starts with a colon-bearing marker has a colon.
proof fn lemma_trimmed_prefix_has_colon(line: Seq<char>, marker: Seq<char>, ci: int)
    requires
        is_prefix(marker, spec_trim(line)),
        0 <= ci < marker.len(),
        marker[ci] == ':',
    ensures
        find_from(line, ':', 0) is Some,
{
    assert(spec_trim(line)[ci] == ':');
    lemma_trim_char_in_orig(line, ci);
    let w = choose|w: int| 0 <= w < line.len() && line[w] == spec_trim(line)[ci];
    if find_from(line, ':', 0) is None {
        lemma_find_none(line, ':', 0);
    }
}

/// Parse the remote listing: both the HEAD branch and the fetch URL must
/// be present, and the fetch URL text must parse as a URL; for each
/// marker, the last line whose trimmed text starts with it provides the
/// value. The fetch URL is handed back in its normalized serialization.
pub fn parse_remote_output(output: &str) -> (r: Option<(String, String)>)
    ensures
        ({
            let folded = remote_fold(lines_from(output@, 0), Option::None, Option::None);
            match r {
                Option::Some((b, u)) => {
                    &&& folded.0 == Option::Some(b@)
                    &&& (folded.1 matches Option::Some(ft) && crate::repo::url_parses(ft) && u@
                        == crate::repo::url_serialization_of(ft))
                },
                Option::None => folded.0 is None || folded.1 is None || (
                folded.1 matches Option::Some(ft) && !crate::repo::url_parses(ft)),
            }
        }),
{
    let lines = split_lines(output);
    let ghost lv = seq_views(lines@);
    let n = lines.len();
    let mut hb: Option<String> = Option::None;
    let mut fu: Option<String> = Option::None;
    let mut i: usize = 0;
    proof {
        assert(lv.skip(0) =~= lv);
    }
    while i < n
        invariant
            n == lines.len(),
            i <= n,
            lv == seq_views(lines@),
            lv == lines_from(output@, 0),
            remote_fold(lv.skip(i as int), spec_opt_str(hb), spec_opt_str(fu)) == remote_fold(
                lv,
                Option::None,
                Option::None,
            ),
        decreases n - i,
    {
        let line = &lines[i];
        proof {
            assert(lv.skip(i as int)[0] == line@);
        }
        let t = str_trim(line.as_str());
        if str_starts_with(t.as_str(), "HEAD branch:") {
            proof {
                reveal_strlit("HEAD branch:");
                lemma_trimmed_prefix_has_colon(line@, hb_marker(), 11);
            }
            hb = Option::Some(take_after_colon(line.as_str()));
        }
        if str_starts_with(t.as_str(), "Fetch URL:") {
            proof {
                reveal_strlit("Fetch URL:");
                lemma_trimmed_prefix_has_colon(line@, fu_marker(), 9);
            }
            fu = Option::Some(take_after_colon(line.as_str()));
        }
        proof {
            assert(lv.skip(i as int).drop_first() =~= lv.skip(i + 1));
        }
        i = i + 1;
    }
    proof {
        assert(lv.skip(i as int) =~= Seq::<Seq<char>>::empty());
    }
    match (hb, fu) {
        (Option::Some(b), Option::Some(u)) => {
            match crate::repo::parse_url_parts(u.as_str()) {
                Option::Some(parts) => Option::Some((b, parts.serialization)),
                Option::None => Option::None,
            }
        },
        (Option::Some(_), Option::None) => Option::None,
        (Option::None, Option::Some(_)) => Option::None,
        (Option::None, Option::None) => Option::None,
    }
}

/// What follows the line's first colon, trimmed.
fn take_after_colon(line: &str) -> (r: String)
    requires
        find_from(line@, ':', 0) is Some,
    ensures
        r@ == after_colon_trim(line@),
{
    let k = match str_find_char(line, ':', 0) {
        Option::Some(k) => k,
        Option::None => {
            proof {
                assert(false);
            }
            0
        },
    };
    proof {
        lemma_find_some_in_range(line@, ':', 0);
    }
    let len = line.unicode_len();
    let rest = line.substring_char(k + 1, len);
    str_trim(rest)
}

/// The per-candidate gate: a candidate proceeds to analysis exactly when its
/// default branch was discovered, a top-level manifest is present, and no
/// pinned-toolchain marker is present.
pub open spec fn spec_candidate_admitted(
    branch_found: bool,
    has_manifest: bool,
    has_toolchain_file: bool,
) -> bool {
    branch_found && has_manifest && !has_toolchain_file
}

/// The plan for one candidate, decided from what was observed of its
/// directory, branch and manifest.
pub struct AcquisitionPlan {
    /// Clone the repository first.
    pub clone_repo: bool,
    /// Proceed to emit work for this candidate.
    pub emit: bool,
    /// Hard-reset the checkout to the remote default branch before emitting.
    pub resync: bool,
}

/// What acquisition does with one candidate: clone exactly when the
/// directory is missing; emit exactly when the candidate is admitted;
/// resync only when requested and the candidate is admitted.
pub open spec fn spec_plan_acquisition(
    dir_exists: bool,
    branch_found: bool,
    has_manifest: bool,
    has_toolchain_file: bool,
    resync_requested: bool,
) -> AcquisitionPlan {
    AcquisitionPlan {
        clone_repo: !dir_exists,
        emit: spec_candidate_admitted(branch_found, has_manifest, has_toolchain_file),
        resync: resync_requested && spec_candidate_admitted(
            branch_found,
            has_manifest,
            has_toolchain_file,
        ),
    }
}

/// Decide the acquisition plan for one candidate.
pub fn plan_acquisition(
    dir_exists: bool,
    branch_found: bool,
    has_manifest: bool,
    has_toolchain_file: bool,
    resync_requested: bool,
) -> (r: AcquisitionPlan)
    ensures
        r == spec_plan_acquisition(
            dir_exists,
            branch_found,
            has_manifest,
            has_toolchain_file,
            resync_requested,
        ),
{
    let admitted = branch_found && has_manifest && !has_toolchain_file;
    AcquisitionPlan { clone_repo: !dir_exists, emit: admitted, resync: resync_requested && admitted }
}

/// Law: acquisition is idempotent. Once a candidate's source is present, a
/// re-run that observes the same branch and manifest state, with resync
/// disabled, performs no clone, never resyncs, and admits the candidate
/// exactly as the first run did — so, the derivation of work items being a
/// function of the admitted state, it yields the same work items.
pub proof fn lemma_acquisition_idempotent(
    branch_found: bool,
    has_manifest: bool,
    has_toolchain_file: bool,
)
    ensures
        ({
            let first = spec_plan_acquisition(
                false,
                branch_found,
                has_manifest,
                has_toolchain_file,
                false,
            );
            let rerun = spec_plan_acquisition(
                true,
                branch_found,
                has_manifest,
                has_toolchain_file,
                false,
            );
            &&& rerun.clone_repo == false
            &&& rerun.resync == false
            &&& rerun.emit == first.emit
        }),
{
}

} // verus!
