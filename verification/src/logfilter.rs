//! Log filtering decisions: which events pass, by verbosity level and by
//! whether the event comes from this library.

use vstd::prelude::*;

verus! {

/// A log event's severity, most severe first.
#[derive(Copy, Clone, Eq, PartialEq, Structural, Debug)]
pub enum LogLevel {
    Error,
    Warn,
    Info,
    Debug,
    Trace,
}

/// A level's rank: higher means more verbose.
pub open spec fn level_rank(l: LogLevel) -> int {
    match l {
        LogLevel::Error => 0,
        LogLevel::Warn => 1,
        LogLevel::Info => 2,
        LogLevel::Debug => 3,
        LogLevel::Trace => 4,
    }
}

/// A verbosity setting: which levels of the library's own events pass.
pub trait VerbosityFilter {
    /// Which levels this setting admits.
    spec fn spec_allow(level: LogLevel) -> bool;

    /// Whether an event of this level passes.
    fn allow(level: LogLevel) -> (r: bool)
        ensures
            r == Self::spec_allow(level),
    ;
}

/// Unrestricted verbosity: everything passes.
pub struct VerbosityVery;

impl VerbosityFilter for VerbosityVery {
    open spec fn spec_allow(level: LogLevel) -> bool {
        true
    }

    fn allow(level: LogLevel) -> (r: bool) {
        true
    }
}

/// Normal verbosity: debug and more severe.
pub struct VerbosityNormal;

impl VerbosityFilter for VerbosityNormal {
    open spec fn spec_allow(level: LogLevel) -> bool {
        level_rank(level) <= 3
    }

    fn allow(level: LogLevel) -> (r: bool) {
        !matches!(level, LogLevel::Trace)
    }
}

/// Low verbosity: info and more severe.
pub struct VerbosityLow;

impl VerbosityFilter for VerbosityLow {
    open spec fn spec_allow(level: LogLevel) -> bool {
        level_rank(level) <= 2
    }

    fn allow(level: LogLevel) -> (r: bool) {
        matches!(level, LogLevel::Error | LogLevel::Warn | LogLevel::Info)
    }
}

/// No verbosity: nothing of the library's own events passes.
pub struct VerbosityNone;

impl VerbosityFilter for VerbosityNone {
    open spec fn spec_allow(level: LogLevel) -> bool {
        false
    }

    fn allow(level: LogLevel) -> (r: bool) {
        false
    }
}

/// Index of the first `::` in `s` at or after `i`.
pub open spec fn find_colons(s: Seq<char>, i: int) -> Option<int>
    decreases s.len() - i,
{
    if i < 0 || i + 2 > s.len() {
        Option::None
    } else if s[i] == ':' && s[i + 1] == ':' {
        Option::Some(i)
    } else {
        find_colons(s, i + 1)
    }
}

/// The module part of an event's target: what precedes the first `::`, or
/// the whole target.
pub open spec fn spec_target_module(target: Seq<char>) -> Seq<char> {
    match find_colons(target, 0) {
        Option::Some(k) => target.subrange(0, k),
        Option::None => target,
    }
}

/// Whether an event from the given module at the given severity passes,
/// when the library's verbosity setting answers `library_allows` for that
/// severity: the library's own events go by the setting, everything else
/// passes only at warning severity or above.
pub open spec fn spec_filter_enabled(
    module: Seq<char>,
    level: LogLevel,
    library_allows: bool,
) -> bool {
    if module == "meteoroid"@ {
        library_allows
    } else {
        level_rank(level) < 2
    }
}

/// The filter: events from this library pass by the verbosity setting;
/// events from elsewhere pass only at warning severity or above.
pub struct LogFilter<V> {
    pub marker: core::marker::PhantomData<V>,
}

impl<V: VerbosityFilter> LogFilter<V> {
    /// A filter for the verbosity setting `V`.
    pub fn new() -> (r: Self) {
        LogFilter { marker: core::marker::PhantomData }
    }

    /// Decide one event.
    pub fn enabled(&self, target: &str, level: LogLevel) -> (r: bool)
        ensures
            r == spec_filter_enabled(spec_target_module(target@), level, V::spec_allow(level)),
    {
        let module = target_module(target);
        let lib: String = "meteoroid".to_owned();
        if module.eq(&lib) {
            V::allow(level)
        } else {
            matches!(level, LogLevel::Error | LogLevel::Warn)
        }
    }
}

/// The module part of a target: what precedes the first `::`.
pub fn target_module(target: &str) -> (r: String)
    ensures
        r@ == spec_target_module(target@),
{
    let len: usize = target.unicode_len();
    if len < 2 {
        return target.to_owned();
    }
    let mut i: usize = 0;
    while i <= len - 2
        invariant
            len == target@.len(),
            2 <= len,
            i <= len,
            find_colons(target@, 0) == find_colons(target@, i as int),
        decreases len - i,
    {
        if target.get_char(i) == ':' && target.get_char(i + 1) == ':' {
            return target.substring_char(0, i).to_owned();
        }
        i = i + 1;
    }
    target.to_owned()
}

} // verus!
