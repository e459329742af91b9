//! Formatter invocation outcomes and toolchain locations.
//!
//! Spawning processes happens outside the library. Verified here: how a
//! finished invocation is classified into the three outcomes — clean,
//! diff, error — and how the built binary's and toolchain's paths are
//! derived.

use vstd::prelude::*;

use crate::fs::path_join;
use crate::strutil::find_from;

verus! {

/// Where the toolchain's runtime libraries live.
#[derive(Clone)]
pub struct ToolchainLibPath(pub String);

impl ToolchainLibPath {
    /// The path handed to the dynamic linker.
    pub fn ld_library_path(&self) -> (r: &String)
        ensures
            r == self.0,
    {
        &self.0
    }
}

/// What a formatter build produced: the binary and its library path.
#[derive(Clone)]
pub struct RustFmtBuildOutputs {
    pub built_binary_path: String,
    pub toolchain_lib_path: ToolchainLibPath,
}

/// The three outcomes of one formatter invocation.
pub enum RustfmtOutput {
    /// Clean exit: nothing would be reformatted.
    Success,
    /// The distinguished exit code with captured output: the diff text.
    Diff(String),
    /// Anything else — spawn failure, timeout, other exit: an error message.
    Failure(String),
}

/// What the process runner observed of one finished invocation.
pub enum ProcessResult {
    /// The process could not be started; the message says why.
    SpawnFailed(String),
    /// The invocation exceeded its timeout and was killed.
    TimedOut,
    /// The process exited; whether cleanly, whether with the distinguished
    /// code, and what it wrote.
    Exited { success: bool, code_is_one: bool, stdout: String, stderr: String },
}

/// How an observed invocation classifies: a clean exit is no diff; the
/// distinguished exit code with non-empty output is a diff; everything
/// else — spawn failure, timeout, another code, or empty output on the
/// distinguished code — is an error.
pub open spec fn spec_classify_rustfmt(r: ProcessResult, out: RustfmtOutput) -> bool {
    match r {
        ProcessResult::SpawnFailed(m) => out == RustfmtOutput::Failure(m),
        ProcessResult::TimedOut => out matches RustfmtOutput::Failure(e) && e@
            == "command timed out"@,
        ProcessResult::Exited { success, code_is_one, stdout, stderr } => {
            if success {
                out == RustfmtOutput::Success
            } else if code_is_one {
                if stdout@.len() == 0 {
                    out == RustfmtOutput::Failure(stderr)
                } else {
                    out == RustfmtOutput::Diff(stdout)
                }
            } else {
                out == RustfmtOutput::Failure(stderr)
            }
        },
    }
}

/// Classify one finished formatter invocation.
pub fn run_rustfmt(r: ProcessResult) -> (out: RustfmtOutput)
    ensures
        spec_classify_rustfmt(r, out),
{
    match r {
        ProcessResult::SpawnFailed(m) => RustfmtOutput::Failure(m),
        ProcessResult::TimedOut => RustfmtOutput::Failure(timeout_message()),
        ProcessResult::Exited { success, code_is_one, stdout, stderr } => {
            if success {
                RustfmtOutput::Success
            } else if code_is_one {
                if stdout.as_str().is_empty() {
                    RustfmtOutput::Failure(stderr)
                } else {
                    RustfmtOutput::Diff(stdout)
                }
            } else {
                RustfmtOutput::Failure(stderr)
            }
        },
    }
}

/// The message a timed-out invocation carries.
pub fn timeout_message() -> (r: String)
    ensures
        r@ == "command timed out"@,
{
    "command timed out".to_owned()
}

/// Where a formatter build places its binary under the source directory.
pub fn expected_rustfmt_binary(rustfmt_source_dir: &str) -> (r: String)
    ensures
        r@ == rustfmt_source_dir@ + "/"@ + "target"@ + "/"@ + "release"@ + "/"@ + "rustfmt"@,
{
    let t = path_join(rustfmt_source_dir, "target");
    let rel = path_join(t.as_str(), "release");
    path_join(rel.as_str(), "rustfmt")
}

/// The first whitespace-separated token of the toolchain listing: the
/// active toolchain's name.
pub fn parse_active_toolchain(stdout: &str) -> (r: String)
    ensures
        r@ == (match find_from(stdout@, ' ', 0) {
            Option::Some(k) => stdout@.subrange(0, k),
            Option::None => stdout@,
        }),
{
    match crate::strutil::str_find_char(stdout, ' ', 0) {
        Option::Some(k) => {
            proof {
                crate::strutil::lemma_find_some_in_range(stdout@, ' ', 0);
            }
            stdout.substring_char(0, k).to_owned()
        },
        Option::None => {
            proof {
                assert(stdout@.subrange(0, stdout@.len() as int) =~= stdout@);
            }
            stdout.to_owned()
        },
    }
}

/// The places a toolchain's library directory may live: under the user's
/// rustup home when one is known, then under the system-wide location.
pub fn toolchain_lib_candidates(home_dir: Option<String>, toolchain: &str) -> (r: Vec<String>)
    ensures
        ({
            let tail = "/"@ + ".rustup"@ + "/"@ + "toolchains"@ + "/"@ + toolchain@ + "/"@
                + "lib"@;
            let sys = "/usr/local/rustup/toolchains"@ + "/"@ + toolchain@ + "/"@ + "lib"@;
            match home_dir {
                Option::Some(h) => r@.len() == 2 && r@[0]@ == h@ + tail && r@[1]@ == sys,
                Option::None => r@.len() == 1 && r@[0]@ == sys,
            }
        }),
{
    let mut out: Vec<String> = Vec::new();
    if let Option::Some(h) = home_dir {
        let a = path_join(h.as_str(), ".rustup");
        let b = path_join(a.as_str(), "toolchains");
        let c = path_join(b.as_str(), toolchain);
        let d = path_join(c.as_str(), "lib");
        out.push(d);
    }
    let a = path_join("/usr/local/rustup/toolchains", toolchain);
    let b = path_join(a.as_str(), "lib");
    out.push(b);
    out
}

} // verus!
