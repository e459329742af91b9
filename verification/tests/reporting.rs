//! The aggregator's tallies, retention, placement and ordering, and the
//! working-directory decisions.

use std::cmp::Ordering;

use meteoroid::analyze::{CrateAnalysis, DivergingDiff, RustfmtAnalysis};
use meteoroid::error::unpack;
use meteoroid::fs::{last_updated, needs_refetch, path_join, Workdir};
use meteoroid::local_crates::{decrement_budget, last_component, should_skip_local};
use meteoroid::logfilter::{LogFilter, LogLevel, VerbosityLow, VerbosityNone, VerbosityVery};
use meteoroid::report::{
    fmt_elapsed, place_file, should_write_meta_diff, AnalysisReport, CrateReport, FmtOutput,
    OutputDirs,
};
use meteoroid::selector::{ConsumerOpts, CrateName, GitRepo, NormalPath};

fn analysis(diff: Option<&str>, error: Option<&str>) -> RustfmtAnalysis {
    RustfmtAnalysis {
        diff_output: diff.map(str::to_string),
        rustfmt_error: error.map(str::to_string),
        elapsed_millis: 1234,
    }
}

fn completed(name: &str, upstream: RustfmtAnalysis, local: RustfmtAnalysis) -> CrateAnalysis {
    CrateAnalysis::new(
        CrateName(NormalPath(name.to_string())),
        format!("/work/{name}"),
        GitRepo(format!("https://github.com/o/{name}")),
        "main".to_string(),
        upstream,
        local,
    )
}

fn no_files() -> FmtOutput {
    FmtOutput { diff_output_file: None, error_output_file: None, elapsed: "0.00s".to_string() }
}

#[test]
fn tallies_count_successes_diffs_and_failures() {
    let mut report = AnalysisReport::new("/out".to_string());
    report.add_result(
        completed("a", analysis(None, None), analysis(Some("d"), None)),
        false,
        no_files(),
        no_files(),
        None,
        false,
    );
    report.add_result(
        completed("b", analysis(None, Some("boom")), analysis(None, None)),
        false,
        no_files(),
        no_files(),
        None,
        false,
    );
    assert_eq!(report.num_upstream_successes, 1);
    assert_eq!(report.num_upstream_failures, 1);
    assert_eq!(report.num_local_successes, 1);
    assert_eq!(report.num_local_diffs, 1);
    assert_eq!(report.num_local_failures, 0);
    // "a" diverged (local-only diff); "b" did not.
    assert_eq!(report.num_diverging_diffs, 1);
}

#[test]
fn retention_keeps_diverging_and_newly_failing_rows() {
    let mut report = AnalysisReport::new("/out".to_string());
    // Non-diverging, non-failing, with skipping on: dropped.
    let kept = report.add_result(
        completed("quiet", analysis(None, None), analysis(None, None)),
        false,
        no_files(),
        no_files(),
        None,
        true,
    );
    assert!(!kept);
    // Diverging: kept even with skipping on.
    let kept = report.add_result(
        completed("diverges", analysis(Some("X"), None), analysis(None, None)),
        false,
        no_files(),
        no_files(),
        None,
        true,
    );
    assert!(kept);
    // Failing: kept even with skipping on.
    let kept = report.add_result(
        completed("fails", analysis(None, Some("boom")), analysis(None, None)),
        false,
        no_files(),
        no_files(),
        None,
        true,
    );
    assert!(kept);
    // With skipping off, everything is kept.
    let kept = report.add_result(
        completed("quiet2", analysis(None, None), analysis(None, None)),
        false,
        no_files(),
        no_files(),
        None,
        false,
    );
    assert!(kept);
    assert_eq!(report.crate_reports.len(), 3);
}

#[test]
fn finished_reports_are_sorted_by_crate_name() {
    let mut report = AnalysisReport::new("/out".to_string());
    for name in ["zeta", "alpha", "midway"] {
        report.add_result(
            completed(name, analysis(None, None), analysis(None, None)),
            false,
            no_files(),
            no_files(),
            None,
            false,
        );
    }
    let finished = report.finish_report();
    let names: Vec<&str> =
        finished.crate_reports.iter().map(|r| r.crate_name.0 .0.as_str()).collect();
    assert_eq!(names, vec!["alpha", "midway", "zeta"]);
}

#[test]
fn files_are_placed_by_kind() {
    let dirs = OutputDirs::new("/out".to_string());
    let name = NormalPath("a.diff".to_string());
    assert_eq!(place_file(&dirs, &name, true, false), "/out/diverged/a.diff");
    assert_eq!(place_file(&dirs, &name, false, false), "/out/nondiverged/a.diff");
    assert_eq!(place_file(&dirs, &name, true, true), "/out/errors/a.diff");
}

#[test]
fn elapsed_times_render_with_two_decimals() {
    assert_eq!(fmt_elapsed(0), "0.00s");
    assert_eq!(fmt_elapsed(1234), "1.23s");
    assert_eq!(fmt_elapsed(999), "0.99s");
    assert_eq!(fmt_elapsed(30_000), "30.00s");
}

#[test]
fn workdir_lays_out_the_two_tables() {
    let wd = Workdir::new("/work".to_string());
    assert_eq!(wd.versions_csv, "/work/versions.csv");
    assert_eq!(wd.crates_csv, "/work/crates.csv");
    assert_eq!(path_join("a", "b"), "a/b");
}

#[test]
fn staleness_depends_on_age_and_presence() {
    let day = 24 * 3600;
    assert!(needs_refetch(None, 100, 7));
    assert!(needs_refetch(Some(0), 8 * day, 7));
    assert!(!needs_refetch(Some(2 * day), 8 * day, 7));
    // A time in the future counts as stale.
    assert!(needs_refetch(Some(200), 100, 7));
    assert_eq!(last_updated(Some(1), Some(2), Some(3)), Some(1));
    assert_eq!(last_updated(None, Some(2), Some(3)), Some(2));
    assert_eq!(last_updated(None, None, Some(3)), Some(3));
    assert_eq!(last_updated(None, None, None), None);
}

#[test]
fn error_chains_render_with_arrows() {
    let e = unpack(vec!["outer".to_string(), "middle".to_string(), "root".to_string()]);
    assert_eq!(e.to_display_string(), "outer -> middle -> root");
    let single = unpack(vec!["only".to_string()]);
    assert_eq!(single.to_display_string(), "only");
    let empty = unpack(vec![]);
    assert_eq!(empty.to_display_string(), "");
}

#[test]
fn local_scan_decisions() {
    assert_eq!(last_component("/work/serde"), Some("serde".to_string()));
    assert_eq!(last_component("/work/serde/"), Some("serde".to_string()));
    assert_eq!(last_component("serde"), Some("serde".to_string()));
    assert_eq!(last_component(""), None);
    assert_eq!(last_component("///"), None);

    let opts = ConsumerOpts {
        max_crates: 5,
        min_size: 0,
        exclude_crate_name_contains: vec!["bad".to_string()],
        exclude_repository_contains: vec!["forbidden".to_string()],
    };
    assert!(should_skip_local(&opts, "badger", &None));
    assert!(should_skip_local(
        &opts,
        "fine",
        &Some(GitRepo("https://forbidden.example/x".to_string()))
    ));
    assert!(!should_skip_local(
        &opts,
        "fine",
        &Some(GitRepo("https://github.com/o/r".to_string()))
    ));

    assert_eq!(decrement_budget(2), (1, false));
    assert_eq!(decrement_budget(1), (0, true));
    assert_eq!(decrement_budget(0), (0, true));
}

#[test]
fn log_filter_gates_by_origin_and_level() {
    let f: LogFilter<VerbosityLow> = LogFilter::new();
    assert!(f.enabled("meteoroid::selector", LogLevel::Info));
    assert!(!f.enabled("meteoroid::selector", LogLevel::Debug));
    assert!(f.enabled("hyper::client", LogLevel::Warn));
    assert!(!f.enabled("hyper::client", LogLevel::Info));

    let f: LogFilter<VerbosityVery> = LogFilter::new();
    assert!(f.enabled("meteoroid", LogLevel::Trace));

    let f: LogFilter<VerbosityNone> = LogFilter::new();
    assert!(!f.enabled("meteoroid", LogLevel::Error));
    assert!(f.enabled("other", LogLevel::Error));
}

#[test]
fn report_rows_rank_diverged_then_errors_then_diffs() {
    let row = |name: &str, diverged: bool, err: bool, diff: bool| CrateReport::new(
        CrateName(NormalPath(name.to_string())),
        "/r".to_string(),
        GitRepo("u".to_string()),
        "main".to_string(),
        diverged,
        false,
        None,
        FmtOutput {
            diff_output_file: if diff { Some("d".to_string()) } else { None },
            error_output_file: if err { Some("e".to_string()) } else { None },
            elapsed: "0.00s".to_string(),
        },
        FmtOutput { diff_output_file: None, error_output_file: None, elapsed: "0.00s".to_string() },
    );
    assert_eq!(row("a", true, false, false).cmp(&row("b", false, true, true)), Ordering::Greater);
    assert_eq!(row("a", false, true, false).cmp(&row("b", false, false, true)), Ordering::Greater);
    assert_eq!(row("a", false, false, true).cmp(&row("b", false, false, false)), Ordering::Greater);
    assert_eq!(row("a", false, false, false).cmp(&row("b", false, false, false)), Ordering::Less);
    assert_eq!(row("same", true, true, true).cmp(&row("same", true, true, true)), Ordering::Equal);
}

#[test]
fn meta_diffs_only_for_differing_diffs_with_both_files() {
    let f = Some("x".to_string());
    assert!(should_write_meta_diff(&DivergingDiff::DiffBetween, &f, &f));
    assert!(!should_write_meta_diff(&DivergingDiff::DiffBetween, &None, &f));
    assert!(!should_write_meta_diff(&DivergingDiff::DiffBetween, &f, &None));
    assert!(!should_write_meta_diff(&DivergingDiff::LocalOnly, &f, &f));
    assert!(!should_write_meta_diff(&DivergingDiff::NoDivergence, &f, &f));
}
