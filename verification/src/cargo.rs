//! Workspace-member discovery from a package manifest.
//!
//! TOML parsing is done by the `cargo_toml` crate behind a trusted wrapper;
//! which member list applies, and how a glob member is expanded, is decided
//! by verified functions over plain values.

use vstd::prelude::*;

use crate::strutil::{find_last, str_find_last};

verus! {

/// Relies on cargo_toml::Manifest::from_str: TOML manifest parsing; hands
/// back the workspace table's default members and members when the manifest
/// has a workspace table.
#[verifier::external_body]
fn manifest_workspace(raw: &str) -> (r: Result<Option<(Vec<String>, Vec<String>)>, String>)
{
    match cargo_toml::Manifest::<cargo_toml::Value>::from_str(raw) {
        Ok(m) => Ok(m.workspace.map(|ws| (ws.default_members, ws.members))),
        Err(e) => Err(format!("failed to parse manifest: {e}")),
    }
}

/// Which member list applies: no workspace means no members; otherwise the
/// default members when any are declared, else the members.
pub open spec fn spec_select_members(ws: Option<(Vec<String>, Vec<String>)>) -> Seq<String> {
    match ws {
        Option::None => Seq::empty(),
        Option::Some((d, m)) => if d@.len() > 0 {
            d@
        } else {
            m@
        },
    }
}

/// Select the member list that applies from a parsed workspace table.
pub fn select_members(ws: Option<(Vec<String>, Vec<String>)>) -> (r: Vec<String>)
    ensures
        r@ == spec_select_members(ws),
{
    match ws {
        Option::None => Vec::new(),
        Option::Some((d, m)) => {
            if d.len() > 0 {
                d
            } else {
                m
            }
        },
    }
}

/// Read the applicable workspace member list out of a manifest's text. The
/// selection among the parsed lists is verified; the parse itself is the
/// TOML library's.
pub fn parse_members(raw: &str) -> (r: Result<Vec<String>, String>)
{
    match manifest_workspace(raw) {
        Result::Ok(ws) => Result::Ok(select_members(ws)),
        Result::Err(e) => Result::Err(e),
    }
}

/// A member entry whose final path component is exactly `*`: it stands for
/// every subdirectory of its parent.
pub open spec fn spec_member_is_glob(s: Seq<char>) -> bool {
    match find_last(s, '/') {
        Option::Some(k) => s.len() == k + 2 && s[k + 1] == '*',
        Option::None => s.len() == 1 && s[0] == '*',
    }
}

/// The directory a glob member stands in: the text before the final slash,
/// or empty for a bare `*`.
pub open spec fn spec_glob_parent(s: Seq<char>) -> Seq<char> {
    match find_last(s, '/') {
        Option::Some(k) => s.subrange(0, k),
        Option::None => Seq::empty(),
    }
}

/// If a member entry is a glob, the directory to list; otherwise nothing —
/// the member names its directory itself.
pub fn unpack_member_plan(member: &str) -> (r: Option<String>)
    ensures
        match r {
            Option::Some(parent) => spec_member_is_glob(member@) && parent@ == spec_glob_parent(
                member@,
            ),
            Option::None => !spec_member_is_glob(member@),
        },
{
    let len = member.unicode_len();
    match str_find_last(member, '/') {
        Option::Some(k) => {
            proof {
                crate::strutil::lemma_find_last_in_range(member@, '/');
            }
            if len >= 2 && k == len - 2 && member.get_char(len - 1) == '*' {
                Option::Some(member.substring_char(0, k).to_owned())
            } else {
                Option::None
            }
        },
        Option::None => {
            if len == 1 && member.get_char(0) == '*' {
                Option::Some(String::new())
            } else {
                Option::None
            }
        },
    }
}

} // verus!
