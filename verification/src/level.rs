//! Log levels and level filters, with the ordering and numbering the NSLogger viewer expects.

use vstd::prelude::*;

verus! {

/// Severity of a log message, from the most severe (`Error`) to the most verbose (`Trace`).
#[derive(Debug, Clone, Copy, PartialEq, Eq, Structural)]
pub enum Level {
    Error,
    Warn,
    Info,
    Debug,
    Trace,
}

/// Maximum verbosity let through by a logger; `Off` lets nothing through.
#[derive(Debug, Clone, Copy, PartialEq, Eq, Structural)]
pub enum LevelFilter {
    Off,
    Error,
    Warn,
    Info,
    Debug,
    Trace,
}

impl Level {
    /// Number of the level on the wire: 1 for `Error` up to 5 for `Trace`.
    pub open spec fn spec_code(self) -> u16 {
        match self {
            Level::Error => 1,
            Level::Warn => 2,
            Level::Info => 3,
            Level::Debug => 4,
            Level::Trace => 5,
        }
    }

    /// Number of the level on the wire: 1 for `Error` up to 5 for `Trace`.
    pub fn code(&self) -> (r: u16)
        ensures
            r == self.spec_code(),
    {
        match self {
            Level::Error => 1,
            Level::Warn => 2,
            Level::Info => 3,
            Level::Debug => 4,
            Level::Trace => 5,
        }
    }
}

impl LevelFilter {
    /// Rank of the filter: 0 for `Off` up to 5 for `Trace`, matching the level numbers.
    pub open spec fn spec_code(self) -> u16 {
        match self {
            LevelFilter::Off => 0,
            LevelFilter::Error => 1,
            LevelFilter::Warn => 2,
            LevelFilter::Info => 3,
            LevelFilter::Debug => 4,
            LevelFilter::Trace => 5,
        }
    }

    /// Rank of the filter: 0 for `Off` up to 5 for `Trace`, matching the level numbers.
    pub fn code(&self) -> (r: u16)
        ensures
            r == self.spec_code(),
    {
        match self {
            LevelFilter::Off => 0,
            LevelFilter::Error => 1,
            LevelFilter::Warn => 2,
            LevelFilter::Info => 3,
            LevelFilter::Debug => 4,
            LevelFilter::Trace => 5,
        }
    }

    /// Whether a message of severity `level` passes this filter: the filter is the maximum level
    /// that gets logged.
    pub open spec fn spec_allows(self, level: Level) -> bool {
        level.spec_code() <= self.spec_code()
    }

    /// Whether a message of severity `level` passes this filter.
    pub fn allows(&self, level: Level) -> (r: bool)
        ensures
            r == self.spec_allows(level),
    {
        level.code() <= self.code()
    }

    /// Parses a filter name the way the `log` crate does (case-insensitively).
    pub fn from_name(name: &str) -> (r: Option<LevelFilter>)
        ensures
            r == spec_level_filter_from_name(name@),
    {
        parse_log_level_filter(name)
    }
}

/// The filter named like `level`.
pub open spec fn filter_named(level: Level) -> LevelFilter {
    match level {
        Level::Error => LevelFilter::Error,
        Level::Warn => LevelFilter::Warn,
        Level::Info => LevelFilter::Info,
        Level::Debug => LevelFilter::Debug,
        Level::Trace => LevelFilter::Trace,
    }
}

/// A filter is the maximum level that gets logged: `Off` lets nothing through, `Trace`
/// everything, and each filter lets through a message of its own level and of every less
/// verbose level (Error, Warn, Info, Debug, Trace, from the least verbose), and nothing more
/// verbose.
pub proof fn lemma_filter_is_maximum_level(filter: LevelFilter, level: Level)
    ensures
        filter_named(level).spec_allows(level),
        !LevelFilter::Off.spec_allows(level),
        LevelFilter::Trace.spec_allows(level),
        filter.spec_allows(level) <==> match filter {
            LevelFilter::Off => false,
            LevelFilter::Error => level == Level::Error,
            LevelFilter::Warn => level == Level::Error || level == Level::Warn,
            LevelFilter::Info => level != Level::Debug && level != Level::Trace,
            LevelFilter::Debug => level != Level::Trace,
            LevelFilter::Trace => true,
        },
{
}

/// Filters are ordered as their levels: a filter that lets a message through lets through every
/// message that a filter named like a less verbose level lets through.
pub proof fn lemma_filters_nest(filter: LevelFilter, level: Level, other: Level)
    requires
        filter.spec_allows(level),
        filter_named(level).spec_allows(other),
    ensures
        filter.spec_allows(other),
{
}

/// ASCII lower-case of a character; other characters are unchanged.
pub open spec fn ascii_lower(c: char) -> char {
    if 'A' <= c <= 'Z' {
        ((c as u32) + 32) as char
    } else {
        c
    }
}

/// Equality of two texts up to ASCII case.
pub open spec fn eq_ignore_ascii_case(a: Seq<char>, b: Seq<char>) -> bool {
    a.len() == b.len() && forall|i: int| 0 <= i < a.len() ==> ascii_lower(a[i]) == ascii_lower(b[i])
}

/// The filter whose name is `name` up to ASCII case, among OFF, ERROR, WARN, INFO, DEBUG and
/// TRACE.
pub open spec fn spec_level_filter_from_name(name: Seq<char>) -> Option<LevelFilter> {
    if eq_ignore_ascii_case(name, seq!['O', 'F', 'F']) {
        Some(LevelFilter::Off)
    } else if eq_ignore_ascii_case(name, seq!['E', 'R', 'R', 'O', 'R']) {
        Some(LevelFilter::Error)
    } else if eq_ignore_ascii_case(name, seq!['W', 'A', 'R', 'N']) {
        Some(LevelFilter::Warn)
    } else if eq_ignore_ascii_case(name, seq!['I', 'N', 'F', 'O']) {
        Some(LevelFilter::Info)
    } else if eq_ignore_ascii_case(name, seq!['D', 'E', 'B', 'U', 'G']) {
        Some(LevelFilter::Debug)
    } else if eq_ignore_ascii_case(name, seq!['T', 'R', 'A', 'C', 'E']) {
        Some(LevelFilter::Trace)
    } else {
        None
    }
}

/// Calls `<log::LevelFilter as FromStr>::from_str`. The contract states what the `log` source
/// does: it compares the text, ignoring ASCII case, with the names "OFF", "ERROR", "WARN",
/// "INFO", "DEBUG" and "TRACE" in that order and returns the matching filter, or an error when
/// none matches (here `None`).
#[verifier::external_body]
fn parse_log_level_filter(name: &str) -> (r: Option<LevelFilter>)
    ensures
        r == spec_level_filter_from_name(name@),
{
    match <log::LevelFilter as std::str::FromStr>::from_str(name) {
        Ok(log::LevelFilter::Off) => Some(LevelFilter::Off),
        Ok(log::LevelFilter::Error) => Some(LevelFilter::Error),
        Ok(log::LevelFilter::Warn) => Some(LevelFilter::Warn),
        Ok(log::LevelFilter::Info) => Some(LevelFilter::Info),
        Ok(log::LevelFilter::Debug) => Some(LevelFilter::Debug),
        Ok(log::LevelFilter::Trace) => Some(LevelFilter::Trace),
        Err(_) => None,
    }
}

} // verus!
