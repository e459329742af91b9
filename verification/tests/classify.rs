//! Divergence classification and the formatter-invocation outcomes.

use meteoroid::analyze::{
    classify_analyses, classify_diverging_diff, CrateAnalysis, DivergingDiff, RustfmtAnalysis,
};
use meteoroid::cmd::{
    expected_rustfmt_binary, parse_active_toolchain, run_rustfmt, toolchain_lib_candidates,
    ProcessResult, RustfmtOutput,
};
use meteoroid::selector::{CrateName, GitRepo, NormalPath};

fn some(s: &str) -> Option<String> {
    Some(s.to_string())
}

#[test]
fn classification_truth_table() {
    assert_eq!(classify_diverging_diff(&None, &None), DivergingDiff::NoDivergence);
    assert_eq!(classify_diverging_diff(&some("X"), &None), DivergingDiff::UpstreamOnly);
    assert_eq!(classify_diverging_diff(&None, &some("X")), DivergingDiff::LocalOnly);
    assert_eq!(classify_diverging_diff(&some("X"), &some("X")), DivergingDiff::NoDivergence);
    assert_eq!(classify_diverging_diff(&some("X"), &some("Y")), DivergingDiff::DiffBetween);
}

fn analysis(diff: Option<String>, error: Option<String>) -> RustfmtAnalysis {
    RustfmtAnalysis { diff_output: diff, rustfmt_error: error, elapsed_millis: 5 }
}

#[test]
fn candidate_errors_record_no_divergence() {
    let upstream = analysis(some("X"), None);
    let local = analysis(None, some("boom"));
    assert_eq!(classify_analyses(&upstream, &local), DivergingDiff::NoDivergence);
    // An upstream error with a candidate diff still counts as local-only.
    let upstream = analysis(None, some("boom"));
    let local = analysis(some("X"), None);
    assert_eq!(classify_analyses(&upstream, &local), DivergingDiff::LocalOnly);
}

#[test]
fn diverged_is_everything_but_agreement() {
    assert!(!DivergingDiff::NoDivergence.diverged());
    assert!(DivergingDiff::LocalOnly.diverged());
    assert!(DivergingDiff::UpstreamOnly.diverged());
    assert!(DivergingDiff::DiffBetween.diverged());
}

#[test]
fn crate_analysis_carries_its_classification() {
    let a = CrateAnalysis::new(
        CrateName(NormalPath("n".to_string())),
        "/tmp/n".to_string(),
        GitRepo("https://github.com/o/n".to_string()),
        "main".to_string(),
        analysis(some("X"), None),
        analysis(some("Y"), None),
    );
    assert_eq!(a.diverging_diff, DivergingDiff::DiffBetween);
    assert_eq!(a.head_branch, "main");
}

#[test]
fn invocation_outcomes_classify_three_ways() {
    assert!(matches!(
        run_rustfmt(ProcessResult::Exited {
            success: true,
            code_is_one: false,
            stdout: String::new(),
            stderr: String::new(),
        }),
        RustfmtOutput::Success
    ));
    match run_rustfmt(ProcessResult::Exited {
        success: false,
        code_is_one: true,
        stdout: "the diff".to_string(),
        stderr: String::new(),
    }) {
        RustfmtOutput::Diff(d) => assert_eq!(d, "the diff"),
        _ => panic!("expected a diff"),
    }
    // The distinguished code with empty output is an error.
    assert!(matches!(
        run_rustfmt(ProcessResult::Exited {
            success: false,
            code_is_one: true,
            stdout: String::new(),
            stderr: "err".to_string(),
        }),
        RustfmtOutput::Failure(_)
    ));
    assert!(matches!(
        run_rustfmt(ProcessResult::Exited {
            success: false,
            code_is_one: false,
            stdout: "x".to_string(),
            stderr: "err".to_string(),
        }),
        RustfmtOutput::Failure(_)
    ));
    assert!(matches!(run_rustfmt(ProcessResult::TimedOut), RustfmtOutput::Failure(_)));
    assert!(matches!(
        run_rustfmt(ProcessResult::SpawnFailed("no such file".to_string())),
        RustfmtOutput::Failure(_)
    ));
}

#[test]
fn toolchain_and_binary_paths() {
    assert_eq!(parse_active_toolchain("stable-x86_64 (default)"), "stable-x86_64");
    assert_eq!(parse_active_toolchain("bare"), "bare");
    assert_eq!(
        expected_rustfmt_binary("/src/rustfmt"),
        "/src/rustfmt/target/release/rustfmt"
    );
    let c = toolchain_lib_candidates(Some("/home/dev".to_string()), "stable");
    assert_eq!(
        c,
        vec![
            "/home/dev/.rustup/toolchains/stable/lib".to_string(),
            "/usr/local/rustup/toolchains/stable/lib".to_string(),
        ]
    );
    let c = toolchain_lib_candidates(None, "stable");
    assert_eq!(c, vec!["/usr/local/rustup/toolchains/stable/lib".to_string()]);
}
