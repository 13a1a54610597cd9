//! Command-line options.

use vstd::prelude::*;

verus! {

/// How much the logger lets through.
#[derive(Clone, Copy, Debug, PartialEq, Eq, Structural)]
pub enum LevelFilter {
    Off,
    Error,
    Warn,
    Info,
    Debug,
    Trace,
}

/// The command-line options.
#[derive(Clone, Debug)]
pub struct Cli {
    /// URL to open.
    pub url: Option<String>,
    /// Maximum frames per second.
    pub fps: u16,
    /// Browser zoom percentage (100 = default).
    pub scale: u16,
    /// Number of `-v` flags.
    pub verbosity: u8,
}

/// The log level for a number of `-v` flags: none = error, then warn,
/// info, debug, and trace from four flags on.
pub open spec fn log_level_spec(verbosity: u8) -> LevelFilter {
    if verbosity == 0 {
        LevelFilter::Error
    } else if verbosity == 1 {
        LevelFilter::Warn
    } else if verbosity == 2 {
        LevelFilter::Info
    } else if verbosity == 3 {
        LevelFilter::Debug
    } else {
        LevelFilter::Trace
    }
}

impl Cli {
    /// The requested log level.
    pub fn log_level(&self) -> (l: LevelFilter)
        ensures
            l == log_level_spec(self.verbosity),
    {
        match self.verbosity {
            0 => LevelFilter::Error,
            1 => LevelFilter::Warn,
            2 => LevelFilter::Info,
            3 => LevelFilter::Debug,
            _ => LevelFilter::Trace,
        }
    }
}

/// More `-v` flags never make the log quieter.
pub proof fn lemma_log_level_monotone(a: u8, b: u8)
    requires
        a <= b,
    ensures
        level_rank(log_level_spec(a)) <= level_rank(log_level_spec(b)),
{
}

/// Verbosity order of the levels.
pub open spec fn level_rank(l: LevelFilter) -> int {
    match l {
        LevelFilter::Off => 0,
        LevelFilter::Error => 1,
        LevelFilter::Warn => 2,
        LevelFilter::Info => 3,
        LevelFilter::Debug => 4,
        LevelFilter::Trace => 5,
    }
}

} // verus!
