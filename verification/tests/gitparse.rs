//! Parsing the version-control tool's output, the acquisition plan, and
//! workspace-member discovery.

use meteoroid::cargo::{parse_members, select_members, unpack_member_plan};
use meteoroid::git::{
    guess_remote_from_show_output, parse_head_branch, parse_remote_output, plan_acquisition,
};
use meteoroid::repo::validate_repo;

const REMOTE_SHOW: &str = "* remote origin\n  Fetch URL: https://github.com/o/r\n  Push  URL: https://github.com/o/r\n  HEAD branch: main\n";

#[test]
fn head_branch_is_read_from_the_marker_line() {
    assert_eq!(parse_head_branch(REMOTE_SHOW).unwrap(), "main");
    assert_eq!(parse_head_branch("HEAD branch:   trunk  \n").unwrap(), "trunk");
    assert!(parse_head_branch("no branches here\n").is_none());
    assert!(parse_head_branch("").is_none());
}

#[test]
fn remote_guess_prefers_origin_then_last() {
    assert_eq!(guess_remote_from_show_output("upstream\norigin\n").unwrap(), "origin");
    assert_eq!(guess_remote_from_show_output("alpha\nbeta\n").unwrap(), "beta");
    assert!(guess_remote_from_show_output("").is_none());
}

#[test]
fn remote_listing_yields_branch_and_fetch_url() {
    let (branch, url) = parse_remote_output(REMOTE_SHOW).unwrap();
    assert_eq!(branch, "main");
    assert_eq!(url, "https://github.com/o/r");
    assert!(parse_remote_output("  HEAD branch: main\n").is_none());
    assert!(parse_remote_output("  Fetch URL: https://github.com/o/r\n").is_none());
    // A fetch URL that does not parse as a URL is rejected.
    assert!(parse_remote_output("  Fetch URL: not a url\n  HEAD branch: main\n").is_none());
}

#[test]
fn acquisition_plan_follows_the_gate() {
    let p = plan_acquisition(false, true, true, false, true);
    assert!(p.clone_repo && p.emit && p.resync);
    let p = plan_acquisition(true, true, true, false, false);
    assert!(!p.clone_repo && p.emit && !p.resync);
    // Branch discovery failed.
    assert!(!plan_acquisition(true, false, true, false, false).emit);
    // No top-level manifest.
    assert!(!plan_acquisition(true, true, false, false, false).emit);
    // Pinned toolchain present.
    assert!(!plan_acquisition(true, true, true, true, false).emit);
}

#[test]
fn rerunning_acquisition_clones_nothing_and_emits_alike() {
    let first = plan_acquisition(false, true, true, false, false);
    let rerun = plan_acquisition(true, true, true, false, false);
    assert!(first.clone_repo);
    assert!(!rerun.clone_repo);
    assert!(!rerun.resync);
    assert_eq!(first.emit, rerun.emit);
}

#[test]
fn repo_validation_allows_https_github_two_segments() {
    let (g, n) = validate_repo("https://github.com/owner/repo").unwrap();
    assert_eq!(g.as_url().as_str(), "https://github.com/owner/repo");
    assert_eq!(n.as_path().as_str(), "repo");
    assert!(validate_repo("http://github.com/owner/repo").is_none());
    // The scheme must be https exactly, not merely begin with it.
    assert!(validate_repo("httpsx://github.com/owner/repo").is_none());
    assert!(validate_repo("https://gitlab.com/owner/repo").is_none());
    assert!(validate_repo("https://github.com/owner").is_none());
    assert!(validate_repo("https://github.com/owner/repo/extra").is_none());
    assert!(validate_repo("not a url").is_none());
}

#[test]
fn member_selection_prefers_default_members() {
    assert_eq!(select_members(None), Vec::<String>::new());
    assert_eq!(
        select_members(Some((vec!["d".to_string()], vec!["m".to_string()]))),
        vec!["d".to_string()]
    );
    assert_eq!(
        select_members(Some((vec![], vec!["m".to_string()]))),
        vec!["m".to_string()]
    );
}

#[test]
fn members_come_from_the_workspace_table() {
    let manifest = "[workspace]\nmembers = [\"a\", \"crates/*\"]\n";
    assert_eq!(
        parse_members(manifest).unwrap(),
        vec!["a".to_string(), "crates/*".to_string()]
    );
    let plain = "[package]\nname = \"x\"\nversion = \"0.1.0\"\n";
    assert_eq!(parse_members(plain).unwrap(), Vec::<String>::new());
    assert!(parse_members("not toml [").is_err());
}

#[test]
fn glob_members_name_their_parent() {
    assert_eq!(unpack_member_plan("crates/*"), Some("crates".to_string()));
    assert_eq!(unpack_member_plan("*"), Some(String::new()));
    assert_eq!(unpack_member_plan("crates/util"), None);
    assert_eq!(unpack_member_plan("star*"), None);
}

#[test]
fn remote_listing_last_matching_line_wins() {
    let out = "  Fetch URL: https://github.com/o/first\n  Fetch URL: https://github.com/o/second\n  HEAD branch: main\n";
    let (branch, url) = parse_remote_output(out).unwrap();
    assert_eq!(branch, "main");
    assert_eq!(url, "https://github.com/o/second");
}
