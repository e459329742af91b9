//! The working directory's layout and the staleness decision for the cached
//! registry dump. File-system access itself happens outside the library;
//! what is verified is where each file lives and when a re-fetch is due.

use vstd::prelude::*;

verus! {

/// Join a directory and an entry name with a single separator.
pub fn path_join(base: &str, name: &str) -> (r: String)
    ensures
        r@ == base@ + "/"@ + name@,
{
    let mut s = base.to_owned();
    s.append("/");
    s.append(name);
    s
}

/// The working directory: the base path and where the registry dump's two
/// extracted tables live in it.
pub struct Workdir {
    pub base: String,
    pub versions_csv: String,
    pub crates_csv: String,
}

impl Workdir {
    /// Lay the working directory out under `base`.
    pub fn new(base: String) -> (r: Self)
        ensures
            r.base@ == base@,
            r.versions_csv@ == base@ + "/"@ + "versions.csv"@,
            r.crates_csv@ == base@ + "/"@ + "crates.csv"@,
    {
        let versions_csv = path_join(base.as_str(), "versions.csv");
        let crates_csv = path_join(base.as_str(), "crates.csv");
        Workdir { versions_csv, crates_csv, base }
    }

    /// Whether the cached dump must be re-fetched: when either table is due.
    pub fn needs_crates_refetch(
        &self,
        crates_last_updated: Option<u64>,
        versions_last_updated: Option<u64>,
        now: u64,
        staleness_limit_days: u8,
    ) -> (r: bool)
        ensures
            r == (spec_needs_refetch(crates_last_updated, now, staleness_limit_days)
                || spec_needs_refetch(versions_last_updated, now, staleness_limit_days)),
    {
        needs_refetch(crates_last_updated, now, staleness_limit_days) || needs_refetch(
            versions_last_updated,
            now,
            staleness_limit_days,
        )
    }
}

/// A file is due for a re-fetch when its age is unknown, lies in the
/// future, or exceeds the staleness window.
pub open spec fn spec_needs_refetch(
    last_updated: Option<u64>,
    now: u64,
    staleness_limit_days: u8,
) -> bool {
    match last_updated {
        Option::None => true,
        Option::Some(t) => now < t || now - t > 3600 * 24 * (staleness_limit_days as int),
    }
}

/// Decide whether a file with the given last-update time is stale. Times
/// are seconds; an unknown or future time counts as stale.
pub fn needs_refetch(last_updated: Option<u64>, now: u64, staleness_limit_days: u8) -> (r: bool)
    ensures
        r == spec_needs_refetch(last_updated, now, staleness_limit_days),
{
    match last_updated {
        Option::None => true,
        Option::Some(t) => {
            if now < t {
                true
            } else {
                proof {
                    assert(3600 * 24 * (staleness_limit_days as int) <= 3600 * 24 * 255)
                        by (nonlinear_arith)
                        requires
                            staleness_limit_days <= 255,
                    ;
                }
                let limit: u64 = 3600 * 24 * (staleness_limit_days as u64);
                now - t > limit
            }
        },
    }
}

/// The newest file time available: modification, else access, else creation.
pub fn last_updated(modified: Option<u64>, accessed: Option<u64>, created: Option<u64>) -> (r:
    Option<u64>)
    ensures
        r == (match modified {
            Option::Some(m) => Option::Some(m),
            Option::None => match accessed {
                Option::Some(a) => Option::Some(a),
                Option::None => created,
            },
        }),
{
    match modified {
        Option::Some(m) => Option::Some(m),
        Option::None => match accessed {
            Option::Some(a) => Option::Some(a),
            Option::None => created,
        },
    }
}

/// Where a source tree's top-level manifest lives.
pub fn manifest_path(repo_root: &str) -> (r: String)
    ensures
        r@ == repo_root@ + "/"@ + "Cargo.toml"@,
{
    path_join(repo_root, "Cargo.toml")
}

/// The two pinned-toolchain marker files a source tree may carry.
pub fn toolchain_marker_paths(repo_root: &str) -> (r: (String, String))
    ensures
        r.0@ == repo_root@ + "/"@ + "rust-toolchain"@,
        r.1@ == repo_root@ + "/"@ + "rust-toolchain.toml"@,
{
    (path_join(repo_root, "rust-toolchain"), path_join(repo_root, "rust-toolchain.toml"))
}

} // verus!
