//! Scanning a local directory of already-acquired crates: the decisions
//! made per directory entry. The directory walk itself is I/O and happens
//! outside the library.

use vstd::prelude::*;

use crate::selector::{any_contains, spec_any_contains, ConsumerOpts, GitRepo};
use crate::strutil::{find_last, str_find_last};

verus! {

/// `s` with every trailing slash removed.
pub open spec fn strip_trailing_slashes(s: Seq<char>) -> Seq<char>
    decreases s.len(),
{
    if s.len() > 0 && s[s.len() - 1] == '/' {
        strip_trailing_slashes(s.drop_last())
    } else {
        s
    }
}

/// The final path component of `s`: what follows the last slash once
/// trailing slashes are dropped; nothing when that leaves no text.
pub open spec fn spec_last_component(s: Seq<char>) -> Option<Seq<char>> {
    let t = strip_trailing_slashes(s);
    if t.len() == 0 {
        Option::None
    } else {
        match find_last(t, '/') {
            Option::Some(k) => Option::Some(t.subrange(k + 1, t.len() as int)),
            Option::None => Option::Some(t),
        }
    }
}

/// The final path component of an entry's path; the name a local crate is
/// known by.
pub fn last_component(path: &str) -> (r: Option<String>)
    ensures
        match r {
            Option::Some(c) => spec_last_component(path@) == Option::Some(c@),
            Option::None => spec_last_component(path@) is None,
        },
{
    let len: usize = path.unicode_len();
    let mut b: usize = len;
    proof {
        assert(path@.subrange(0, len as int) =~= path@);
    }
    while b > 0 && path.get_char(b - 1) == '/'
        invariant
            len == path@.len(),
            b <= len,
            strip_trailing_slashes(path@) == strip_trailing_slashes(path@.subrange(0, b as int)),
        decreases b,
    {
        proof {
            assert(path@.subrange(0, b as int).drop_last() =~= path@.subrange(0, b - 1));
        }
        b = b - 1;
    }
    let ghost t = strip_trailing_slashes(path@);
    let trimmed = path.substring_char(0, b);
    proof {
        assert(path@.subrange(0, b as int).len() > 0 ==> path@.subrange(0, b as int)[b - 1]
            == path@[b - 1]);
        assert(t == path@.subrange(0, b as int));
    }
    if b == 0 {
        return Option::None;
    }
    match str_find_last(trimmed, '/') {
        Option::Some(k) => {
            proof {
                crate::strutil::lemma_find_last_in_range(trimmed@, '/');
            }
            Option::Some(trimmed.substring_char(k + 1, b).to_owned())
        },
        Option::None => Option::Some(trimmed.to_owned()),
    }
}

/// Whether a locally found crate is excluded: its repository, when known,
/// or its name matches an exclusion substring.
pub fn should_skip_local(
    opts: &ConsumerOpts,
    crate_name: &str,
    repository: &Option<GitRepo>,
) -> (r: bool)
    ensures
        r == ((match repository {
            Option::Some(g) => spec_any_contains(opts.exclude_repository_contains@, g.0@),
            Option::None => false,
        }) || spec_any_contains(opts.exclude_crate_name_contains@, crate_name@)),
{
    let repo_hit = match repository {
        Option::Some(g) => any_contains(&opts.exclude_repository_contains, g.0.as_str()),
        Option::None => false,
    };
    repo_hit || any_contains(&opts.exclude_crate_name_contains, crate_name)
}

/// Count one crate against the remaining budget; the scan stops when the
/// budget is spent.
pub fn decrement_budget(remaining: usize) -> (r: (usize, bool))
    ensures
        r.0 == (if remaining > 0 {
            remaining - 1
        } else {
            0int
        }),
        r.1 == (r.0 == 0),
{
    let next = if remaining > 0 {
        remaining - 1
    } else {
        0
    };
    (next, next == 0)
}

} // verus!
