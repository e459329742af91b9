//! Bounded top-K candidate selection over a streamed popularity dataset.
//!
//! The selector keeps at most `max_crates` entries, ranked by download count,
//! with duplicate package identifiers rejected. Its invariant ties the kept
//! entries to the full history of records offered to the selection step: the
//! kept entries are always a subset of the history and number exactly
//! `min(K, d)` for `d` distinct identifiers offered, and — whenever the
//! history's identifiers are distinct — every kept download count is at
//! least every dropped one. That makes the final contents independent of
//! arrival order. Each step itself is pinned by `spec_selection_step`:
//! keep, replace the first minimum, or discard.

use vstd::prelude::*;

use vstd::multiset::Multiset;

use crate::api::VersionsEntry;
use crate::strutil::{contains_seq, str_contains};

verus! {

broadcast use
    vstd::seq_lib::group_to_multiset_ensures,
    vstd::multiset::group_multiset_axioms,
    vstd::set::group_set_axioms;

/// The smaller of two integers.
pub open spec fn spec_min(a: int, b: int) -> int {
    if a <= b {
        a
    } else {
        b
    }
}

/// A string that is safe as a single, normal file-system path component:
/// non-empty, not `.` or `..`, and free of separators and NUL.
pub open spec fn valid_path_component(s: Seq<char>) -> bool {
    &&& s.len() > 0
    &&& !(s.len() == 1 && s[0] == '.')
    &&& !(s.len() == 2 && s[0] == '.' && s[1] == '.')
    &&& forall|i: int| 0 <= i < s.len() ==> s[i] != '/' && s[i] != '\\' && s[i] != '\0'
}

/// A path that was checked to be a single normal component.
#[derive(Clone, Debug, PartialEq, Eq)]
pub struct NormalPath(pub String);

/// A crate name that passed path validation; used to derive output file names.
#[derive(Clone, Debug, PartialEq, Eq)]
pub struct CrateName(pub NormalPath);

/// A repository reference, kept in its URL serialization.
#[derive(Clone, Debug, PartialEq, Eq)]
pub struct GitRepo(pub String);

impl GitRepo {
    /// The serialized URL of the repository.
    pub fn as_url(&self) -> (r: &String)
        ensures
            r == self.0,
    {
        &self.0
    }
}

/// The directory name a repository is cloned under; a validated component.
#[derive(Clone, Debug, PartialEq, Eq)]
pub struct RepoName(pub NormalPath);

impl RepoName {
    /// The directory name as a path-safe string.
    pub fn as_path(&self) -> (r: &String)
        ensures
            r == self.0.0,
    {
        &self.0.0
    }
}

/// Check that `path` is a single normal path component.
pub fn normalized_single(path: String) -> (r: Option<NormalPath>)
    ensures
        match r {
            Option::Some(p) => valid_path_component(path@) && p.0@ == path@,
            Option::None => !valid_path_component(path@),
        },
{
    let len: usize = path.as_str().unicode_len();
    if len == 0 {
        return Option::None;
    }
    if len == 1 && path.as_str().get_char(0) == '.' {
        return Option::None;
    }
    if len == 2 && path.as_str().get_char(0) == '.' && path.as_str().get_char(1) == '.' {
        return Option::None;
    }
    let mut i: usize = 0;
    while i < len
        invariant
            len == path@.len(),
            i <= len,
            forall|k: int| 0 <= k < i ==> path@[k] != '/' && path@[k] != '\\' && path@[k] != '\0',
        decreases len - i,
    {
        let c = path.as_str().get_char(i);
        if c == '/' || c == '\\' || c == '\0' {
            return Option::None;
        }
        i = i + 1;
    }
    Option::Some(NormalPath(path))
}

/// Validate a raw string as a path-safe single component.
pub fn best_attempt_validate_path(s: &str) -> (r: Option<NormalPath>)
    ensures
        match r {
            Option::Some(p) => valid_path_component(s@) && p.0@ == s@,
            Option::None => !valid_path_component(s@),
        },
{
    normalized_single(s.to_owned())
}

impl CrateName {
    /// The name of the file a diff output for this crate is written to:
    /// `<name>-<label>.diff`, re-validated as a path component.
    pub fn try_convert_to_diff_file_name(&self, label: &str) -> (r: Option<NormalPath>)
        ensures
            ({
                let full = self.0.0@ + "-"@ + label@ + ".diff"@;
                match r {
                    Option::Some(p) => valid_path_component(full) && p.0@ == full,
                    Option::None => !valid_path_component(full),
                }
            }),
    {
        let mut raw = self.0.0.clone();
        raw.append("-");
        raw.append(label);
        raw.append(".diff");
        best_attempt_validate_path(raw.as_str())
    }

    /// The name of the file a formatter error for this crate is written to:
    /// `<name>-<label>-error.txt`, re-validated as a path component.
    pub fn try_convert_to_rustfmt_error_file_name(&self, label: &str) -> (r: Option<NormalPath>)
        ensures
            ({
                let full = self.0.0@ + "-"@ + label@ + "-error.txt"@;
                match r {
                    Option::Some(p) => valid_path_component(full) && p.0@ == full,
                    Option::None => !valid_path_component(full),
                }
            }),
    {
        let mut raw = self.0.0.clone();
        raw.append("-");
        raw.append(label);
        raw.append("-error.txt");
        best_attempt_validate_path(raw.as_str())
    }
}

/// Selection configuration: the bound K, a minimum size, and exclusion
/// substrings for crate names and repository URLs.
pub struct ConsumerOpts {
    pub max_crates: usize,
    pub min_size: u64,
    pub exclude_crate_name_contains: Vec<String>,
    pub exclude_repository_contains: Vec<String>,
}

impl ConsumerOpts {
    /// Add a substring that excludes matching crate names.
    #[must_use]
    pub fn add_excluded_crate_name_contains(self, crate_name_contains: String) -> (r: Self)
        ensures
            r.max_crates == self.max_crates,
            r.min_size == self.min_size,
            r.exclude_crate_name_contains@ == self.exclude_crate_name_contains@.push(
                crate_name_contains,
            ),
            r.exclude_repository_contains == self.exclude_repository_contains,
    {
        let mut s = self;
        s.exclude_crate_name_contains.push(crate_name_contains);
        s
    }

    /// Add a substring that excludes matching repository URLs.
    #[must_use]
    pub fn add_excluded_repository_contains(self, repository_contains: String) -> (r: Self)
        ensures
            r.max_crates == self.max_crates,
            r.min_size == self.min_size,
            r.exclude_crate_name_contains == self.exclude_crate_name_contains,
            r.exclude_repository_contains@ == self.exclude_repository_contains@.push(
                repository_contains,
            ),
    {
        let mut s = self;
        s.exclude_repository_contains.push(repository_contains);
        s
    }
}

impl Default for ConsumerOpts {
    /// Keep 100 crates of at least 20 kB, with no exclusions.
    fn default() -> (r: Self)
        ensures
            r.max_crates == 100,
            r.min_size == 20_000,
            r.exclude_crate_name_contains@ == Seq::<String>::empty(),
            r.exclude_repository_contains@ == Seq::<String>::empty(),
    {
        ConsumerOpts {
            max_crates: 100,
            min_size: 20_000,
            exclude_crate_name_contains: Vec::new(),
            exclude_repository_contains: Vec::new(),
        }
    }
}

/// What is retained for a selected crate.
pub struct RetainCrate {
    pub crate_name: CrateName,
    pub crate_id: u64,
    pub repository: GitRepo,
    pub repo_dir_name: RepoName,
}

/// A selected crate together with its ranking key.
pub struct CrateByPopularity {
    pub downloads: u64,
    pub rt: RetainCrate,
}

/// A selected crate, stripped of its ranking key.
#[derive(Clone, Debug)]
pub struct PrunedCrate {
    pub crate_name: CrateName,
    pub repository: GitRepo,
    pub repo_dir_name: RepoName,
}

/// No two entries of `s` share a package identifier (the second component).
pub open spec fn distinct_ids(s: Seq<(u64, u64)>) -> bool {
    forall|i: int, j: int| 0 <= i < j < s.len() ==> (#[trigger] s[i]).1 != (#[trigger] s[j]).1
}

/// The set of identifiers the records of `s` hold.
pub open spec fn id_set(s: Seq<(u64, u64)>) -> Set<u64>
    decreases s.len(),
{
    if s.len() == 0 {
        Set::empty()
    } else {
        id_set(s.drop_last()).insert(s.last().1)
    }
}

/// The identifier set of a record sequence is finite.
pub proof fn lemma_id_set_finite(s: Seq<(u64, u64)>)
    ensures
        id_set(s).finite(),
    decreases s.len(),
{
    if s.len() > 0 {
        lemma_id_set_finite(s.drop_last());
    }
}

/// An identifier is in the set exactly when some record holds it.
pub proof fn lemma_id_set_contains(s: Seq<(u64, u64)>)
    ensures
        forall|x: u64|
            #[trigger] id_set(s).contains(x) <==> exists|i: int| 0 <= i < s.len() && s[i].1 == x,
    decreases s.len(),
{
    if s.len() > 0 {
        lemma_id_set_contains(s.drop_last());
        assert forall|x: u64| #[trigger] id_set(s).contains(x) implies exists|i: int|
            0 <= i < s.len() && s[i].1 == x by {
            if x == s.last().1 {
                assert(s[s.len() - 1].1 == x);
            } else {
                assert(id_set(s.drop_last()).contains(x));
                let i = choose|i: int| 0 <= i < s.drop_last().len() && s.drop_last()[i].1 == x;
                assert(s.drop_last()[i] == s[i]);
                assert(s[i].1 == x);
            }
        }
        assert forall|x: u64| (exists|i: int| 0 <= i < s.len() && s[i].1 == x) implies #[trigger]
            id_set(s).contains(x) by {
            let i = choose|i: int| 0 <= i < s.len() && s[i].1 == x;
            if i < s.len() - 1 {
                assert(s.drop_last()[i] == s[i]);
                assert(s.drop_last()[i].1 == x);
                assert(id_set(s.drop_last()).contains(x));
            }
        }
    }
}

/// Appending a record inserts its identifier.
pub proof fn lemma_id_set_push(s: Seq<(u64, u64)>, r: (u64, u64))
    ensures
        id_set(s.push(r)) == id_set(s).insert(r.1),
{
    assert(s.push(r).drop_last() =~= s);
    assert(s.push(r).last() == r);
}

/// Every kept record's download count is at least that of every record the
/// history holds more often than the kept multiset — that is, of every
/// dropped record.
pub open spec fn topk_dominance(kept: Multiset<(u64, u64)>, seen: Multiset<(u64, u64)>) -> bool {
    forall|p: (u64, u64), q: (u64, u64)|
        #![trigger kept.count(p), seen.count(q)]
        kept.count(p) > 0 && seen.count(q) > kept.count(q) ==> p.0 >= q.0
}

/// The bounded top-K selector.
pub struct Consumer {
    pub consumer_opts: ConsumerOpts,
    pub crates: Vec<CrateByPopularity>,
    pub history: Ghost<Seq<(u64, u64)>>,
}

/// `id` is the identifier of some kept entry.
pub open spec fn kept_has_id(c: Consumer, id: u64) -> bool {
    exists|i: int| 0 <= i < c.entries().len() && (#[trigger] c.entries()[i]).rt.crate_id == id
}

/// The entry holds exactly this record's ranking key and payload.
pub open spec fn entry_matches(
    e: CrateByPopularity,
    downloads: u64,
    crate_id: u64,
    name: Seq<char>,
    repo: Seq<char>,
    dir: Seq<char>,
) -> bool {
    &&& e.downloads == downloads
    &&& e.rt.crate_id == crate_id
    &&& e.rt.crate_name.0.0@ == name
    &&& e.rt.repository.0@ == repo
    &&& e.rt.repo_dir_name.0.0@ == dir
}

/// `m` is the first index of minimal download count: every entry ranks at
/// least as high, and every earlier entry ranks strictly higher. For a
/// non-empty selection exactly one such index exists, so ties evict
/// deterministically.
pub open spec fn is_first_min(s: Seq<CrateByPopularity>, m: int) -> bool {
    &&& 0 <= m < s.len()
    &&& forall|t: int| 0 <= t < s.len() ==> (#[trigger] s[t]).downloads >= s[m].downloads
    &&& forall|t: int| 0 <= t < m ==> (#[trigger] s[t]).downloads > s[m].downloads
}

/// What one selection step does, in full. The record always enters the
/// history, and the scan always continues. The kept entries change by
/// exactly one of: nothing, when the record's identifier is already kept,
/// or when the selection is full and the record does not outrank the first
/// minimum-ranked entry; appending the record, when a slot is free; or
/// replacing the first minimum-ranked entry by the record, when the
/// selection is full and the record strictly outranks it. Failure means a
/// zero capacity and changes nothing.
pub open spec fn spec_selection_step(
    pre: Consumer,
    post: Consumer,
    downloads: u64,
    crate_id: u64,
    name: Seq<char>,
    repo: Seq<char>,
    dir: Seq<char>,
    r: Result<bool, String>,
) -> bool {
    &&& post.consumer_opts == pre.consumer_opts
    &&& match r {
        Result::Ok(b) => {
            &&& b == true
            &&& post.seen() == pre.seen().push((downloads, crate_id))
            &&& (pre.inv() ==> post.inv())
            &&& (kept_has_id(pre, crate_id) ==> post.entries() == pre.entries())
            &&& (!kept_has_id(pre, crate_id) && pre.entries().len() < pre.k() ==> exists|
                e: CrateByPopularity,
            |
                entry_matches(e, downloads, crate_id, name, repo, dir) && post.entries()
                    == pre.entries().push(e))
            &&& (!kept_has_id(pre, crate_id) && pre.entries().len() >= pre.k()
                && pre.entries().len() > 0 ==> forall|m: int|
                #[trigger] is_first_min(pre.entries(), m) ==> if downloads
                    > pre.entries()[m].downloads {
                    exists|e: CrateByPopularity|
                        entry_matches(e, downloads, crate_id, name, repo, dir) && post.entries()
                            == pre.entries().remove(m).push(e)
                } else {
                    post.entries() == pre.entries()
                })
        },
        Result::Err(_) => pre.k() == 0 && pre.entries().len() == 0 && post == pre,
    }
}

/// A subset multiset of the same length is the same multiset.
proof fn lemma_subset_same_len<V>(a: Multiset<V>, b: Multiset<V>)
    requires
        a.subset_of(b),
        a.len() == b.len(),
    ensures
        a =~= b,
{
    assert(b.sub(a).len() == 0);
    vstd::multiset::lemma_multiset_empty_len(b.sub(a));
    assert forall|v: V| #![trigger b.count(v)] a.count(v) == b.count(v) by {
        assert(b.sub(a).count(v) == 0);
        assert(a.count(v) <= b.count(v));
    }
    assert(a =~= b);
}

impl Consumer {
    /// The selection bound K.
    pub open spec fn k(self) -> int {
        self.consumer_opts.max_crates as int
    }

    /// The ranking keys of the kept entries: (downloads, crate id) pairs.
    pub open spec fn kept(self) -> Seq<(u64, u64)> {
        self.crates@.map_values(|e: CrateByPopularity| (e.downloads, e.rt.crate_id))
    }

    /// The ranking keys of every record ever offered to the selection step.
    pub open spec fn seen(self) -> Seq<(u64, u64)> {
        self.history@
    }

    /// The kept entries themselves, for relating `get_crates` to the state.
    pub open spec fn entries(self) -> Seq<CrateByPopularity> {
        self.crates@
    }

    /// The selector's invariant. Unconditionally: at most K entries, with
    /// distinct identifiers, forming a sub-multiset of the history; the
    /// selection holds exactly `min(K, d)` entries, where `d` counts the
    /// history's distinct identifiers, and while a slot is free every
    /// identifier ever offered is kept. When the history's identifiers are
    /// distinct: kept download counts dominate dropped ones.
    pub open spec fn inv(self) -> bool {
        &&& self.kept().len() <= self.k()
        &&& distinct_ids(self.kept())
        &&& self.kept().to_multiset().subset_of(self.seen().to_multiset())
        &&& self.kept().len() == spec_min(self.k(), id_set(self.seen()).len() as int)
        &&& (self.kept().len() < self.k() ==> id_set(self.kept()) == id_set(self.seen()))
        &&& (distinct_ids(self.seen()) ==> self.kept().len() == spec_min(
            self.k(),
            self.seen().len() as int,
        ))
        &&& (distinct_ids(self.seen()) ==> topk_dominance(
            self.kept().to_multiset(),
            self.seen().to_multiset(),
        ))
    }

    /// A fresh selector with the given configuration.
    pub fn new(consumer_opts: ConsumerOpts) -> (r: Self)
        ensures
            r.inv(),
            r.consumer_opts == consumer_opts,
            r.seen() == Seq::<(u64, u64)>::empty(),
            r.kept() == Seq::<(u64, u64)>::empty(),
    {
        let r = Consumer { consumer_opts, crates: Vec::new(), history: Ghost(Seq::empty()) };
        proof {
            assert(r.kept() =~= Seq::<(u64, u64)>::empty());
            assert(r.kept().to_multiset().subset_of(r.seen().to_multiset()));
            assert(id_set(r.seen()) =~= Set::<u64>::empty());
            assert(id_set(r.kept()) =~= Set::<u64>::empty());
        }
        r
    }

    /// Offer one validated record to the selection step.
    ///
    /// The record enters the history unconditionally. It is rejected when its
    /// identifier is already kept; it is kept when a slot is free; otherwise
    /// it replaces a minimum-ranked entry exactly when it outranks it. Fails
    /// only when the selector was configured with a capacity of zero.
    #[verifier::loop_isolation(false)]
    pub fn consume_validated(
        &mut self,
        downloads: u64,
        crate_id: u64,
        crate_name: CrateName,
        repository: GitRepo,
        repo_dir_name: RepoName,
    ) -> (r: Result<bool, String>)
        ensures
            spec_selection_step(
                *old(self),
                *final(self),
                downloads,
                crate_id,
                crate_name.0.0@,
                repository.0@,
                repo_dir_name.0.0@,
                r,
            ),
    {
        let ghost rec = (downloads, crate_id);
        let ghost old_kept = self.kept();
        let ghost old_seen = self.seen();
        let ghost oe = self.crates@;

        // Duplicate identifiers are rejected outright once one is kept.
        let mut t: usize = 0;
        let n = self.crates.len();
        while t < n
            invariant
                *self == *old(self),
                n == self.crates.len(),
                t <= n,
                forall|k: int| 0 <= k < t ==> (#[trigger] self.crates@[k]).rt.crate_id != crate_id,
            decreases n - t,
        {
            if self.crates[t].rt.crate_id == crate_id {
                self.history = Ghost(self.history@.push(rec));
                proof {
                    assert(kept_has_id(*old(self), crate_id)) by {
                        assert(old(self).entries()[t as int].rt.crate_id == crate_id);
                    }
                    assert(self.kept() =~= old_kept);
                    assert(self.seen() =~= old_seen.push(rec));
                    if old(self).inv() {
                        // The kept entry with this identifier is in the
                        // history, so the extended history repeats an
                        // identifier and the conditional clauses of the
                        // invariant hold vacuously.
                        assert(old_kept[t as int] == (
                            oe[t as int].downloads,
                            oe[t as int].rt.crate_id,
                        ));
                        assert(self.seen().to_multiset() =~= old_seen.to_multiset().insert(rec));
                        assert(old_kept.to_multiset().count(old_kept[t as int]) > 0);
                        assert(old_seen.to_multiset().count(old_kept[t as int]) > 0);
                        lemma_mem_idx(old_seen, old_kept[t as int]);
                        let w = choose|w: int|
                            0 <= w < old_seen.len() && old_seen[w] == old_kept[t as int];
                        assert(self.seen()[w] == old_kept[t as int]);
                        assert(self.seen()[self.seen().len() - 1] == rec);
                        assert(!distinct_ids(self.seen()));
                        assert(self.kept().to_multiset().subset_of(self.seen().to_multiset()));
                        // The identifier already occurs in the history, so
                        // its identifier set — and with it the size bound —
                        // is unchanged.
                        lemma_id_set_push(old_seen, rec);
                        lemma_id_set_finite(old_seen);
                        lemma_id_set_contains(old_seen);
                        assert(old_seen[w].1 == crate_id);
                        assert(id_set(old_seen).contains(crate_id));
                        assert(id_set(self.seen()) =~= id_set(old_seen));
                    }
                }
                return Result::Ok(true);
            }
            t = t + 1;
        }

        proof {
            assert(!kept_has_id(*old(self), crate_id)) by {
                if kept_has_id(*old(self), crate_id) {
                    let w = choose|w: int|
                        0 <= w < old(self).entries().len() && (#[trigger] old(
                            self,
                        ).entries()[w]).rt.crate_id == crate_id;
                    assert(self.crates@[w].rt.crate_id != crate_id);
                }
            }
            assert(forall|k: int|
                0 <= k < old_kept.len() ==> #[trigger] old_kept[k] == (
                    oe[k].downloads,
                    oe[k].rt.crate_id,
                ));
        }
        if self.crates.len() >= self.consumer_opts.max_crates {
            if self.crates.len() == 0 {
                return Result::Err("selection capacity is zero".to_owned());
            }
            // Find the first minimum-ranked kept entry.
            let mut min_idx: usize = 0;
            let mut j: usize = 1;
            while j < self.crates.len()
                invariant
                    *self == *old(self),
                    min_idx < j <= self.crates.len(),
                    self.crates.len() > 0,
                    forall|k: int|
                        0 <= k < j ==> (#[trigger] self.crates@[k]).downloads
                            >= self.crates@[min_idx as int].downloads,
                    forall|k: int|
                        0 <= k < min_idx ==> (#[trigger] self.crates@[k]).downloads
                            > self.crates@[min_idx as int].downloads,
                decreases self.crates.len() - j,
            {
                if self.crates[j].downloads < self.crates[min_idx].downloads {
                    min_idx = j;
                }
                j = j + 1;
            }
            proof {
                assert(is_first_min(oe, min_idx as int));
                // The first minimum is unique, so the step is deterministic.
                assert forall|w: int| #[trigger] is_first_min(oe, w) implies w
                    == min_idx as int by {
                    if w < min_idx as int {
                        assert(oe[w].downloads > oe[min_idx as int].downloads);
                        assert(oe[w].downloads >= oe[min_idx as int].downloads);
                    } else if w > min_idx as int {
                        assert(oe[min_idx as int].downloads > oe[w].downloads);
                        assert(oe[w].downloads >= oe[min_idx as int].downloads);
                    }
                }
            }
            let ghost m = self.kept()[min_idx as int];
            if downloads > self.crates[min_idx].downloads {
                // Evict the minimum and keep the new record.
                self.crates.remove(min_idx);
                self.crates.push(
                    CrateByPopularity {
                        downloads,
                        rt: RetainCrate { crate_name, crate_id, repository, repo_dir_name },
                    },
                );
                self.history = Ghost(self.history@.push(rec));
                proof {
                    assert(self.crates@ == oe.remove(min_idx as int).push(self.crates@.last()));
                    assert(entry_matches(
                        self.crates@.last(),
                        downloads,
                        crate_id,
                        crate_name.0.0@,
                        repository.0@,
                        repo_dir_name.0.0@,
                    ));
                    assert(self.kept() =~= old_kept.remove(min_idx as int).push(rec));
                    assert(self.seen() =~= old_seen.push(rec));
                    if old(self).inv() {
                        lemma_evict_preserves(
                            old_kept,
                            old_seen,
                            min_idx as int,
                            rec,
                            self.kept(),
                            self.seen(),
                            old(self).k(),
                        );
                        // The selection stays full; the identifier set can
                        // only grow, so the size bound stays at K.
                        lemma_id_set_push(old_seen, rec);
                        lemma_id_set_finite(old_seen);
                        assert(old_kept.len() == old(self).k());
                        assert(id_set(old_seen).len() >= old(self).k());
                        assert(id_set(self.seen()).len() >= id_set(old_seen).len());
                        assert(self.kept().len() == old_kept.len());
                    }
                }
                Result::Ok(true)
            } else {
                // The new record does not outrank the minimum: drop it.
                self.history = Ghost(self.history@.push(rec));
                proof {
                    assert(self.kept() =~= old_kept);
                    assert(self.seen() =~= old_seen.push(rec));
                    if old(self).inv() && distinct_ids(self.seen()) {
                        lemma_distinct_push_prefix(old_seen, rec);
                        assert(old_kept.len() == old(self).k());
                        assert(self.kept().len() == spec_min(
                            self.k(),
                            self.seen().len() as int,
                        ));
                        assert(topk_dominance(
                            self.kept().to_multiset(),
                            self.seen().to_multiset(),
                        )) by {
                            assert(self.seen().to_multiset() =~= old_seen.to_multiset().insert(
                                rec,
                            ));
                            assert(old_kept.to_multiset().count(m) > 0);
                            assert(forall|p: (u64, u64)|
                                #[trigger] old_kept.to_multiset().count(p) > 0 ==> p.0 >= m.0)
                                by {
                                lemma_count_mem(old_kept);
                            }
                        }
                    }
                    if old(self).inv() {
                        assert(self.kept().to_multiset().subset_of(self.seen().to_multiset()));
                        // The selection stays full and unchanged; the
                        // identifier set can only grow.
                        lemma_id_set_push(old_seen, rec);
                        lemma_id_set_finite(old_seen);
                        assert(old_kept.len() == old(self).k());
                        assert(id_set(old_seen).len() >= old(self).k());
                        assert(id_set(self.seen()).len() >= id_set(old_seen).len());
                    }
                }
                Result::Ok(true)
            }
        } else {
            // A slot is free: keep the record unconditionally.
            self.crates.push(
                CrateByPopularity {
                    downloads,
                    rt: RetainCrate { crate_name, crate_id, repository, repo_dir_name },
                },
            );
            self.history = Ghost(self.history@.push(rec));
            proof {
                assert(self.crates@ == oe.push(self.crates@.last()));
                assert(entry_matches(
                    self.crates@.last(),
                    downloads,
                    crate_id,
                    crate_name.0.0@,
                    repository.0@,
                    repo_dir_name.0.0@,
                ));
                assert(self.kept() =~= old_kept.push(rec));
                assert(self.seen() =~= old_seen.push(rec));
                if old(self).inv() {
                    assert(self.kept().to_multiset() =~= old_kept.to_multiset().insert(rec));
                    assert(self.seen().to_multiset() =~= old_seen.to_multiset().insert(rec));
                    if distinct_ids(self.seen()) {
                        lemma_distinct_push_prefix(old_seen, rec);
                        // The selection was not full, so the whole history
                        // was kept; it still is after keeping the new record.
                        assert(old_kept.len() == old_seen.len());
                        lemma_subset_same_len(old_kept.to_multiset(), old_seen.to_multiset());
                        assert(topk_dominance(
                            self.kept().to_multiset(),
                            self.seen().to_multiset(),
                        ));
                    }
                    // The identifier is new: below capacity every offered
                    // identifier is kept, and this one is not among them.
                    lemma_id_set_push(old_seen, rec);
                    lemma_id_set_push(old_kept, rec);
                    lemma_id_set_finite(old_seen);
                    lemma_id_set_contains(old_kept);
                    assert(!id_set(old_kept).contains(crate_id)) by {
                        if id_set(old_kept).contains(crate_id) {
                            let ii = choose|ii: int|
                                0 <= ii < old_kept.len() && old_kept[ii].1 == crate_id;
                            assert(oe[ii].rt.crate_id != crate_id);
                        }
                    }
                    assert(!id_set(old_seen).contains(crate_id));
                    assert(id_set(self.seen()).len() == id_set(old_seen).len() + 1);
                    assert(self.kept().len() == old_kept.len() + 1);
                    assert(id_set(self.kept()) =~= id_set(self.seen()));
                    assert(self.kept().to_multiset().subset_of(self.seen().to_multiset()));
                    assert(distinct_ids(self.kept())) by {
                        assert(forall|k: int|
                            0 <= k < old_kept.len() ==> (#[trigger] self.kept()[k])
                                == old_kept[k]);
                    }
                }
            }
            Result::Ok(true)
        }
    }

    /// Hand out the selected crates, in no particular order.
    pub fn get_crates(self) -> (r: Vec<PrunedCrate>)
        ensures
            r@.len() == self.entries().len(),
            forall|i: int|
                0 <= i < r@.len() ==> (#[trigger] r@[i]).crate_name
                    == self.entries()[i].rt.crate_name && r@[i].repository
                    == self.entries()[i].rt.repository && r@[i].repo_dir_name
                    == self.entries()[i].rt.repo_dir_name,
    {
        let mut out: Vec<PrunedCrate> = Vec::new();
        let mut crates = self.crates;
        let ghost all = crates@;
        while crates.len() > 0
            invariant
                out@.len() + crates@.len() == all.len(),
                crates@ =~= all.subrange(out@.len() as int, all.len() as int),
                forall|k: int|
                    0 <= k < out@.len() ==> (#[trigger] out@[k]).crate_name
                        == all[k].rt.crate_name && out@[k].repository == all[k].rt.repository
                        && out@[k].repo_dir_name == all[k].rt.repo_dir_name,
            decreases crates@.len(),
        {
            let e = crates.remove(0);
            out.push(
                PrunedCrate {
                    crate_name: e.rt.crate_name,
                    repository: e.rt.repository,
                    repo_dir_name: e.rt.repo_dir_name,
                },
            );
        }
        out
    }
}

/// Some exclusion substring occurs in the given text.
pub open spec fn spec_any_contains(excls: Seq<String>, hay: Seq<char>) -> bool {
    exists|i: int| 0 <= i < excls.len() && contains_seq(hay, excls[i]@)
}

/// A record reaches the selection step: it is large enough, neither its
/// name nor its repository matches an exclusion substring, its repository
/// passes the URL rule, and its name is path-safe.
pub open spec fn spec_record_eligible(
    opts: ConsumerOpts,
    crate_name: Seq<char>,
    e: VersionsEntry,
) -> bool {
    &&& e.crate_size >= opts.min_size
    &&& !spec_any_contains(opts.exclude_crate_name_contains@, crate_name)
    &&& !spec_any_contains(opts.exclude_repository_contains@, e.repository@)
    &&& crate::repo::spec_validate_repo_ok(e.repository@)
    &&& valid_path_component(crate_name)
}

/// Whether any of the exclusion substrings occurs in `hay`.
pub fn any_contains(excls: &Vec<String>, hay: &str) -> (r: bool)
    ensures
        r == spec_any_contains(excls@, hay@),
{
    let mut i: usize = 0;
    while i < excls.len()
        invariant
            i <= excls.len(),
            forall|k: int| 0 <= k < i ==> !contains_seq(hay@, (#[trigger] excls@[k])@),
        decreases excls.len() - i,
    {
        if str_contains(hay, excls[i].as_str()) {
            return true;
        }
        i = i + 1;
    }
    proof {
        if spec_any_contains(excls@, hay@) {
            let w = choose|w: int| 0 <= w < excls@.len() && contains_seq(hay@, excls@[w]@);
        }
    }
    false
}

impl crate::consumer::CrateConsumer for Consumer {
    /// Offer one raw popularity record. A record below the minimum size,
    /// with an excluded name or repository, with a repository the URL rule
    /// rejects, or with a name that is not path-safe is skipped and leaves
    /// the selection unchanged; every other record reaches the selection
    /// step, which keeps, replaces or discards exactly as
    /// `spec_selection_step` says. The scan always continues; failure means
    /// a zero capacity.
    fn consume(&mut self, crate_name: &str, versions_entry: VersionsEntry) -> (r: Result<
        bool,
        String,
    >)
        ensures
            final(self).consumer_opts == old(self).consumer_opts,
            old(self).inv() ==> final(self).inv(),
            !spec_record_eligible(old(self).consumer_opts, crate_name@, versions_entry)
                ==> *final(self) == *old(self) && r == Result::<bool, String>::Ok(true),
            spec_record_eligible(old(self).consumer_opts, crate_name@, versions_entry)
                ==> spec_selection_step(
                *old(self),
                *final(self),
                versions_entry.downloads,
                versions_entry.crate_id,
                crate_name@,
                crate::repo::url_serialization_of(versions_entry.repository@),
                crate::repo::url_segments_of(versions_entry.repository@)->Some_0[1],
                r,
            ),
    {
        if self.consumer_opts.min_size > versions_entry.crate_size {
            return Result::Ok(true);
        }
        if any_contains(&self.consumer_opts.exclude_crate_name_contains, crate_name) {
            return Result::Ok(true);
        }
        if any_contains(
            &self.consumer_opts.exclude_repository_contains,
            versions_entry.repository.as_str(),
        ) {
            return Result::Ok(true);
        }
        let (git_repo, repo_name) = match crate::repo::validate_repo(
            versions_entry.repository.as_str(),
        ) {
            Option::Some(p) => p,
            Option::None => {
                return Result::Ok(true);
            },
        };
        let validated = match best_attempt_validate_path(crate_name) {
            Option::Some(p) => p,
            Option::None => {
                return Result::Ok(true);
            },
        };
        self.consume_validated(
            versions_entry.downloads,
            versions_entry.crate_id,
            CrateName(validated),
            git_repo,
            repo_name,
        )
    }
}

/// Law: whenever the records offered to the selection step had distinct
/// identifiers, the selection holds exactly `min(K, n)` of them, their
/// identifiers are distinct, and every kept download count is at least every
/// dropped one — the defining property of "the K most downloaded".
pub proof fn lemma_selection_topk(c: Consumer)
    requires
        c.inv(),
        distinct_ids(c.seen()),
    ensures
        c.kept().len() == spec_min(c.k(), c.seen().len() as int),
        distinct_ids(c.kept()),
        c.kept().to_multiset().subset_of(c.seen().to_multiset()),
        topk_dominance(c.kept().to_multiset(), c.seen().to_multiset()),
{
}

/// Law: with or without duplicate-identifier records, the selection holds
/// exactly `min(K, d)` entries, where `d` counts the distinct identifiers
/// among all records ever offered to the selection step.
pub proof fn lemma_selection_size(c: Consumer)
    requires
        c.inv(),
    ensures
        c.kept().len() == spec_min(c.k(), id_set(c.seen()).len() as int),
{
}

/// How many of a selection's records have at least the given download
/// count. A bounded dominant selection keeps exactly `min(n, m)` of them,
/// where `m` is how many such records the whole history holds — so the
/// count depends on the history alone.
pub proof fn lemma_topk_threshold_count(
    kept: Multiset<(u64, u64)>,
    seen: Multiset<(u64, u64)>,
    n: int,
    t: u64,
)
    requires
        kept.subset_of(seen),
        kept.len() == n,
        topk_dominance(kept, seen),
    ensures
        kept.filter(|p: (u64, u64)| p.0 >= t).len() == spec_min(
            n,
            seen.filter(|p: (u64, u64)| p.0 >= t).len() as int,
        ),
{
    let phi = |p: (u64, u64)| p.0 >= t;
    let a = kept.filter(phi);
    let shi = seen.filter(phi);
    assert(a.subset_of(kept)) by {
        assert(forall|v: (u64, u64)| #[trigger] a.count(v) <= kept.count(v));
    }
    assert(a.subset_of(shi)) by {
        assert(forall|v: (u64, u64)| #[trigger] a.count(v) <= shi.count(v));
    }
    assert(kept.sub(a).len() == kept.len() - a.len());
    assert(shi.sub(a).len() == shi.len() - a.len());
    if a.len() < n && a.len() < shi.len() {
        // Some kept record is below the threshold...
        let b = kept.sub(a);
        assert(b.len() > 0);
        vstd::multiset::lemma_multiset_empty_len(b);
        let p = choose|p: (u64, u64)| b.count(p) > 0;
        assert(kept.count(p) > 0 && !phi(p));
        // ...while some record at or above it was dropped.
        let c = shi.sub(a);
        assert(c.len() > 0);
        vstd::multiset::lemma_multiset_empty_len(c);
        let q = choose|q: (u64, u64)| c.count(q) > 0;
        assert(shi.count(q) > a.count(q));
        assert(phi(q) && seen.count(q) > kept.count(q));
        // Dominance then puts the kept record above the threshold too.
        assert(p.0 >= q.0);
        assert(false);
    }
}

/// Law: the selection's content is independent of arrival order. Two runs
/// over the same records — as a multiset, in any order — with the same
/// bound keep, for every download threshold, the same number of records at
/// or above it: the selected download counts are determined by the record
/// multiset alone.
pub proof fn lemma_selection_order_independent(c1: Consumer, c2: Consumer, t: u64)
    requires
        c1.inv(),
        c2.inv(),
        distinct_ids(c1.seen()),
        distinct_ids(c2.seen()),
        c1.seen().to_multiset() == c2.seen().to_multiset(),
        c1.k() == c2.k(),
    ensures
        c1.kept().to_multiset().filter(|p: (u64, u64)| p.0 >= t).len()
            == c2.kept().to_multiset().filter(|p: (u64, u64)| p.0 >= t).len(),
{
    assert(c1.seen().to_multiset().len() == c1.seen().len());
    assert(c2.seen().to_multiset().len() == c2.seen().len());
    assert(c1.kept().to_multiset().len() == c1.kept().len());
    assert(c2.kept().to_multiset().len() == c2.kept().len());
    let n = spec_min(c1.k(), c1.seen().len() as int);
    lemma_topk_threshold_count(
        c1.kept().to_multiset(),
        c1.seen().to_multiset(),
        n,
        t,
    );
    lemma_topk_threshold_count(
        c2.kept().to_multiset(),
        c2.seen().to_multiset(),
        n,
        t,
    );
}

/// If a history extended by one record has distinct identifiers, so had
/// the history itself.
proof fn lemma_distinct_push_prefix(s: Seq<(u64, u64)>, rec: (u64, u64))
    requires
        distinct_ids(s.push(rec)),
    ensures
        distinct_ids(s),
{
    assert forall|i: int, j: int| 0 <= i < j < s.len() implies (#[trigger] s[i]).1
        != (#[trigger] s[j]).1 by {
        assert(s.push(rec)[i] == s[i]);
        assert(s.push(rec)[j] == s[j]);
    }
}

/// An element with positive multiset count occurs at some index.
proof fn lemma_mem_idx(s: Seq<(u64, u64)>, v: (u64, u64))
    requires
        s.to_multiset().count(v) > 0,
    ensures
        exists|i: int| 0 <= i < s.len() && s[i] == v,
{
    assert(s.contains(v));
}

/// Positive multiset count of any value means an index holds it.
proof fn lemma_count_mem(s: Seq<(u64, u64)>)
    ensures
        forall|v: (u64, u64)|
            #[trigger] s.to_multiset().count(v) > 0 ==> exists|i: int|
                0 <= i < s.len() && s[i] == v,
{
    assert forall|v: (u64, u64)| #[trigger] s.to_multiset().count(v) > 0 implies exists|i: int|
        0 <= i < s.len() && s[i] == v by {
        assert(s.contains(v));
    }
}

/// Evicting a minimum-ranked entry for a higher-ranked record preserves the
/// selector's invariant.
#[verifier::spinoff_prover]
proof fn lemma_evict_preserves(
    old_kept: Seq<(u64, u64)>,
    old_seen: Seq<(u64, u64)>,
    min_idx: int,
    rec: (u64, u64),
    new_kept: Seq<(u64, u64)>,
    new_seen: Seq<(u64, u64)>,
    k: int,
)
    requires
        0 <= min_idx < old_kept.len(),
        old_kept.len() <= k,
        distinct_ids(old_kept),
        old_kept.to_multiset().subset_of(old_seen.to_multiset()),
        distinct_ids(old_seen) ==> old_kept.len() == spec_min(k, old_seen.len() as int),
        distinct_ids(old_seen) ==> topk_dominance(
            old_kept.to_multiset(),
            old_seen.to_multiset(),
        ),
        old_kept.len() == k,
        forall|t: int|
            0 <= t < old_kept.len() ==> (#[trigger] old_kept[t]).0 >= old_kept[min_idx].0,
        rec.0 > old_kept[min_idx].0,
        forall|t: int| 0 <= t < old_kept.len() ==> (#[trigger] old_kept[t]).1 != rec.1,
        new_kept == old_kept.remove(min_idx).push(rec),
        new_seen == old_seen.push(rec),
    ensures
        new_kept.len() <= k,
        distinct_ids(new_kept),
        new_kept.to_multiset().subset_of(new_seen.to_multiset()),
        distinct_ids(new_seen) ==> new_kept.len() == spec_min(k, new_seen.len() as int),
        distinct_ids(new_seen) ==> topk_dominance(new_kept.to_multiset(), new_seen.to_multiset()),
{
    let m = old_kept[min_idx];
    assert(new_kept.to_multiset() =~= old_kept.to_multiset().remove(m).insert(rec));
    assert(new_seen.to_multiset() =~= old_seen.to_multiset().insert(rec));

    assert(distinct_ids(new_kept)) by {
        assert(forall|t: int|
            0 <= t < old_kept.remove(min_idx).len() ==> (#[trigger] old_kept.remove(min_idx)[t])
                == if t < min_idx {
                old_kept[t]
            } else {
                old_kept[t + 1]
            });
    }

    assert(new_kept.to_multiset().subset_of(new_seen.to_multiset())) by {
        assert(forall|v: (u64, u64)|
            #[trigger] new_kept.to_multiset().count(v) <= new_seen.to_multiset().count(v));
    }

    if distinct_ids(new_seen) {
        lemma_distinct_push_prefix(old_seen, rec);
        assert(new_kept.len() == spec_min(k, new_seen.len() as int));
        assert(topk_dominance(new_kept.to_multiset(), new_seen.to_multiset())) by {
            let nk = new_kept.to_multiset();
            let ns = new_seen.to_multiset();
            let ok = old_kept.to_multiset();
            let os = old_seen.to_multiset();
            assert(old_kept.no_duplicates());
            old_kept.lemma_multiset_has_no_duplicates();
            assert(ok.count(m) == 1);
            assert(ok.count(rec) == 0) by {
                lemma_count_mem(old_kept);
            }
            assert(rec != m);
            assert forall|p: (u64, u64), q: (u64, u64)|
                #![trigger nk.count(p), ns.count(q)]
                nk.count(p) > 0 && ns.count(q) > nk.count(q) implies p.0 >= q.0 by {
                lemma_count_mem(old_kept);
                // Where p came from: p == rec, or p survived from the old
                // kept entries and so is at least the evicted minimum.
                if p != rec {
                    assert(nk.count(p) == ok.count(p) - if p == m {
                        1int
                    } else {
                        0int
                    });
                    assert(p != m);
                    assert(ok.count(p) > 0);
                    assert(p.0 >= m.0);
                }
                // Where q went: q is dropped in the new state.
                if q == rec {
                    // rec would have to occur in the old history too,
                    // contradicting the distinct identifiers.
                    assert(os.count(rec) + 1 > ok.count(rec) + 1);
                    lemma_mem_idx(old_seen, rec);
                    let w = choose|w: int| 0 <= w < old_seen.len() && old_seen[w] == rec;
                    assert(new_seen[w] == rec);
                    assert(new_seen[new_seen.len() - 1] == rec);
                    assert(false);
                } else if q == m {
                    if p == rec {
                        assert(p.0 > m.0);
                    }
                } else {
                    // q keeps its old counts on both sides, so it was
                    // already dropped in the old state; the old dominance
                    // puts it at or below the evicted minimum.
                    assert(os.count(q) > ok.count(q));
                    assert(m.0 >= q.0);
                    if p == rec {
                        assert(p.0 > m.0);
                    }
                }
            }
        }
    }
}

} // verus!
