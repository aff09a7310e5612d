use std::path::PathBuf;
use vstd::prelude::*;
use vstd::string::*;

verus! {

#[verifier::external_type_specification]
#[verifier::external_body]
pub struct ExPathBuf(PathBuf);

/// How much the application logs, from the fewest messages to the most.
#[derive(Clone, Copy, Debug, PartialEq, Eq, Structural)]
pub enum Level {
    Error,
    Warn,
    Info,
    Debug,
    Trace,
}

/// The level that a lower-case verbosity name selects; any other name
/// selects `Info`.
pub open spec fn level_named(name: Seq<char>) -> Level {
    if name == "error"@ {
        Level::Error
    } else if name == "warn"@ {
        Level::Warn
    } else if name == "info"@ {
        Level::Info
    } else if name == "debug"@ {
        Level::Debug
    } else if name == "trace"@ {
        Level::Trace
    } else {
        Level::Info
    }
}

/// The lower-case name of a level, as a logger's filter spells it.
pub open spec fn level_name(level: Level) -> Seq<char> {
    match level {
        Level::Error => "error"@,
        Level::Warn => "warn"@,
        Level::Info => "info"@,
        Level::Debug => "debug"@,
        Level::Trace => "trace"@,
    }
}

/// What `str::to_lowercase` makes of a string.
pub uninterp spec fn lowercase_of(s: Seq<char>) -> Seq<char>;

/// Relies on str::to_lowercase: the result depends on the characters alone.
#[verifier::external_body]
fn lowercase(s: &str) -> (r: String)
    ensures
        r@ == lowercase_of(s@),
{
    s.to_lowercase()
}

/// The level that a verbosity name already in lower case selects.
pub fn level_from_lowercase(name: &str) -> (r: Level)
    ensures
        r == level_named(name@),
{
    let name = String::from_str(name);
    if name == String::from_str("error") {
        Level::Error
    } else if name == String::from_str("warn") {
        Level::Warn
    } else if name == String::from_str("info") {
        Level::Info
    } else if name == String::from_str("debug") {
        Level::Debug
    } else if name == String::from_str("trace") {
        Level::Trace
    } else {
        Level::Info
    }
}

impl Level {
    /// The lower-case name of this level.
    pub fn name(&self) -> (r: &'static str)
        ensures
            r@ == level_name(*self),
    {
        match self {
            Level::Error => "error",
            Level::Warn => "warn",
            Level::Info => "info",
            Level::Debug => "debug",
            Level::Trace => "trace",
        }
    }
}

/// Where and how much the application logs.
#[derive(Debug)]
pub struct AppLogConfig {
    /// The directory to log into; standard error when absent.
    pub path: Option<PathBuf>,
    pub level: Level,
}

impl AppLogConfig {
    /// Reads the verbosity name in any case; a name that is none of
    /// error, warn, info, debug and trace selects `Info`.
    pub fn new(verbosity: String, path: Option<PathBuf>) -> (r: AppLogConfig)
        ensures
            r.level == level_named(lowercase_of(verbosity@)),
            r.path == path,
    {
        let lower = lowercase(verbosity.as_str());
        let level = level_from_lowercase(lower.as_str());
        AppLogConfig { path, level }
    }

    /// The logger's filter for this configuration: the level's lower-case
    /// name.
    pub fn filter(&self) -> (r: String)
        ensures
            r@ == level_name(self.level),
    {
        String::from_str(self.level.name())
    }
}

} // verus!
