//! Repository URL validation.
//!
//! URL parsing itself is done by the `url` crate behind one trusted
//! wrapper. Parsing is a function of the text alone, so the parts the
//! wrapper extracts — scheme, host, path segments, serialization — carry
//! names, and the acceptance decision over them is verified with an exact
//! contract: the repository must be an HTTPS URL on the allow-listed host
//! with exactly an owner segment and a path-safe repository-name segment.

use vstd::prelude::*;

use crate::selector::{valid_path_component, GitRepo, NormalPath, RepoName};

verus! {

/// Whether url::Url::parse accepts the text.
pub uninterp spec fn url_parses(s: Seq<char>) -> bool;

/// The scheme url::Url::scheme reads out of the text, once parsed.
pub uninterp spec fn url_scheme_of(s: Seq<char>) -> Seq<char>;

/// The host url::Url::host_str reads out of the text, when it has one.
pub uninterp spec fn url_host_of(s: Seq<char>) -> Option<Seq<char>>;

/// The slash-separated path segments url::Url::path_segments reads out of
/// the text, when the URL has a path.
pub uninterp spec fn url_segments_of(s: Seq<char>) -> Option<Seq<Seq<char>>>;

/// The normalized serialization url::Url::as_str renders the text to.
pub uninterp spec fn url_serialization_of(s: Seq<char>) -> Seq<char>;

/// The parts of a parsed URL, as plain values.
pub struct UrlParts {
    pub scheme: String,
    pub host: Option<String>,
    pub segments: Option<Vec<String>>,
    pub serialization: String,
}

/// The views of optional extracted parts.
pub open spec fn spec_opt_view(s: Option<String>) -> Option<Seq<char>> {
    match s {
        Option::Some(t) => Option::Some(t@),
        Option::None => Option::None,
    }
}

/// The views of an optional segment list.
pub open spec fn spec_opt_seq_views(s: Option<Vec<String>>) -> Option<Seq<Seq<char>>> {
    match s {
        Option::Some(v) => Option::Some(crate::strutil::seq_views(v@)),
        Option::None => Option::None,
    }
}

/// Relies on url::Url::parse and the parsed URL's accessors `scheme`,
/// `host_str`, `path_segments` and `as_str`: parsing depends on the text
/// alone, and the wrapper hands its parts out as plain values.
#[verifier::external_body]
pub(crate) fn parse_url_parts(s: &str) -> (r: Option<UrlParts>)
    ensures
        r is Some == url_parses(s@),
        r matches Option::Some(p) ==> {
            &&& p.scheme@ == url_scheme_of(s@)
            &&& spec_opt_view(p.host) == url_host_of(s@)
            &&& spec_opt_seq_views(p.segments) == url_segments_of(s@)
            &&& p.serialization@ == url_serialization_of(s@)
        },
{
    match url::Url::parse(s) {
        Ok(u) => Some(UrlParts {
            scheme: u.scheme().to_string(),
            host: u.host_str().map(str::to_string),
            segments: u.path_segments().map(|ps| ps.map(str::to_string).collect()),
            serialization: u.as_str().to_string(),
        }),
        Err(_) => None,
    }
}

/// The acceptance rule over the extracted URL parts: the `https` scheme,
/// the allow-listed host, and exactly two path segments — the owner and a
/// path-safe repository name.
pub open spec fn spec_repo_parts_ok(
    scheme: Seq<char>,
    host: Option<Seq<char>>,
    segments: Option<Seq<Seq<char>>>,
) -> bool {
    &&& scheme == "https"@
    &&& host matches Option::Some(h) && h == "github.com"@
    &&& segments matches Option::Some(segs) && segs.len() == 2 && valid_path_component(segs[1])
}

/// A repository text is valid when it parses as a URL whose parts the
/// acceptance rule admits.
pub open spec fn spec_validate_repo_ok(s: Seq<char>) -> bool {
    &&& url_parses(s)
    &&& spec_repo_parts_ok(url_scheme_of(s), url_host_of(s), url_segments_of(s))
}

/// Decide, over the parts extracted from a parsed URL, whether the
/// repository is acceptable; on acceptance, hand back the validated
/// repository-name component.
pub fn repo_parts_acceptable(
    scheme: &String,
    host: &Option<String>,
    segments: &Option<Vec<String>>,
) -> (r: Option<NormalPath>)
    ensures
        match r {
            Option::Some(p) => {
                &&& spec_repo_parts_ok(scheme@, spec_opt_view(*host), spec_opt_seq_views(*segments))
                &&& (*segments matches Option::Some(segs) && segs@.len() == 2 && p.0@ == segs@[1]@)
            },
            Option::None => !spec_repo_parts_ok(
                scheme@,
                spec_opt_view(*host),
                spec_opt_seq_views(*segments),
            ),
        },
{
    let https: String = "https".to_owned();
    if !scheme.eq(&https) {
        return Option::None;
    }
    let h = match host {
        Option::Some(h) => h,
        Option::None => {
            return Option::None;
        },
    };
    let gh: String = "github.com".to_owned();
    if !h.eq(&gh) {
        return Option::None;
    }
    let segs = match segments {
        Option::Some(segs) => segs,
        Option::None => {
            return Option::None;
        },
    };
    if segs.len() != 2 {
        return Option::None;
    }
    crate::selector::best_attempt_validate_path(segs[1].as_str())
}

/// Validate a raw repository string: it is accepted exactly when it parses
/// as a URL the verified rule admits. On acceptance the repository is kept
/// in its normalized serialization together with the validated directory
/// name, the URL's second path segment.
pub fn validate_repo(repo: &str) -> (r: Option<(GitRepo, RepoName)>)
    ensures
        r is Some <==> spec_validate_repo_ok(repo@),
        match r {
            Option::Some((g, n)) => {
                &&& g.0@ == url_serialization_of(repo@)
                &&& (url_segments_of(repo@) matches Option::Some(segs) && segs.len() == 2
                    && n.0.0@ == segs[1])
                &&& valid_path_component(n.0.0@)
            },
            Option::None => true,
        },
{
    let parts = match parse_url_parts(repo) {
        Option::Some(p) => p,
        Option::None => {
            return Option::None;
        },
    };
    match repo_parts_acceptable(&parts.scheme, &parts.host, &parts.segments) {
        Option::Some(p) => Option::Some((GitRepo(parts.serialization), RepoName(p))),
        Option::None => Option::None,
    }
}

} // verus!
