use vstd::prelude::*;

verus! {

/// Severity of a log record, from the most to the least severe.
#[derive(Clone, Copy, Debug, PartialEq, Eq, Structural)]
pub enum Level {
    Error,
    Warn,
    Info,
    Debug,
    Trace,
}

/// Upper bound on the severity that gets logged; `Off` lets nothing through.
#[derive(Clone, Copy, Debug, PartialEq, Eq, Structural)]
pub enum LevelFilter {
    Off,
    Error,
    Warn,
    Info,
    Debug,
    Trace,
}

/// Rank of a level: `Error` is 1, `Trace` is 5.
pub open spec fn level_rank(l: Level) -> int {
    match l {
        Level::Error => 1,
        Level::Warn => 2,
        Level::Info => 3,
        Level::Debug => 4,
        Level::Trace => 5,
    }
}

/// Rank of a filter: `Off` is 0, `Trace` is 5, in step with `level_rank`.
pub open spec fn filter_rank(f: LevelFilter) -> int {
    match f {
        LevelFilter::Off => 0,
        LevelFilter::Error => 1,
        LevelFilter::Warn => 2,
        LevelFilter::Info => 3,
        LevelFilter::Debug => 4,
        LevelFilter::Trace => 5,
    }
}

impl Level {
    /// The rank of the level as a number.
    pub fn rank(&self) -> (r: u8)
        ensures
            r == level_rank(*self),
    {
        match self {
            Level::Error => 1,
            Level::Warn => 2,
            Level::Info => 3,
            Level::Debug => 4,
            Level::Trace => 5,
        }
    }

    /// `self <= other` in the order of severity (`Error` is the smallest).
    pub fn le(&self, other: &Level) -> (r: bool)
        ensures
            r == (level_rank(*self) <= level_rank(*other)),
    {
        self.rank() <= other.rank()
    }
}

impl LevelFilter {
    /// The rank of the filter as a number.
    pub fn rank(&self) -> (r: u8)
        ensures
            r == filter_rank(*self),
    {
        match self {
            LevelFilter::Off => 0,
            LevelFilter::Error => 1,
            LevelFilter::Warn => 2,
            LevelFilter::Info => 3,
            LevelFilter::Debug => 4,
            LevelFilter::Trace => 5,
        }
    }
}

/// Whether a record of `level` passes the filter `max`.
pub open spec fn spec_level_enabled(level: Level, max: LevelFilter) -> bool {
    level_rank(level) <= filter_rank(max)
}

/// Whether a record of `level` passes the filter `max`.
pub fn level_enabled(level: Level, max: LevelFilter) -> (r: bool)
    ensures
        r == spec_level_enabled(level, max),
{
    level.rank() <= max.rank()
}

/// Raising the filter never hides a record it let through, and `Off` lets
/// nothing through.
pub proof fn lemma_enabled_monotone(level: Level, f: LevelFilter, g: LevelFilter)
    ensures
        spec_level_enabled(level, f) && filter_rank(f) <= filter_rank(g) ==> spec_level_enabled(level, g),
        !spec_level_enabled(level, LevelFilter::Off),
        spec_level_enabled(level, LevelFilter::Trace),
{
}

/// The filter named like `level`.
pub open spec fn filter_named(level: Level) -> LevelFilter {
    match level {
        Level::Error => LevelFilter::Error,
        Level::Warn => LevelFilter::Warn,
        Level::Info => LevelFilter::Info,
        Level::Debug => LevelFilter::Debug,
        Level::Trace => LevelFilter::Trace,
    }
}

/// The filters are ordered `Off < Error < Warn < Info < Debug < Trace`,
/// and the levels `Error < Warn < Info < Debug < Trace`.
pub proof fn lemma_ranks_strictly_increase()
    ensures
        filter_rank(LevelFilter::Off) < filter_rank(LevelFilter::Error),
        filter_rank(LevelFilter::Error) < filter_rank(LevelFilter::Warn),
        filter_rank(LevelFilter::Warn) < filter_rank(LevelFilter::Info),
        filter_rank(LevelFilter::Info) < filter_rank(LevelFilter::Debug),
        filter_rank(LevelFilter::Debug) < filter_rank(LevelFilter::Trace),
        level_rank(Level::Error) < level_rank(Level::Warn),
        level_rank(Level::Warn) < level_rank(Level::Info),
        level_rank(Level::Info) < level_rank(Level::Debug),
        level_rank(Level::Debug) < level_rank(Level::Trace),
{
}

/// A filter lets through exactly the levels up to its own name: a record
/// passes the filter named like its own level, it passes the filter named
/// like another level exactly when its own level is at least as severe,
/// each filter ranks with the level of its name, and `Off` lets nothing
/// through.
pub proof fn lemma_filter_admits_up_to_its_name(level: Level, other: Level)
    ensures
        spec_level_enabled(level, filter_named(level)),
        spec_level_enabled(level, filter_named(other)) <==> level_rank(level) <= level_rank(other),
        level_rank(level) == filter_rank(filter_named(level)),
        !spec_level_enabled(level, LevelFilter::Off),
{
}

/// Stores `level` as the process-wide maximum level of the `log` facade
/// (`log::set_max_level`). What it changes is a global that no parameter
/// holds, so nothing is stated.
#[verifier::external_body]
pub(crate) fn set_max_level(level: LevelFilter) {
    log::set_max_level(match level {
        LevelFilter::Off => log::LevelFilter::Off,
        LevelFilter::Error => log::LevelFilter::Error,
        LevelFilter::Warn => log::LevelFilter::Warn,
        LevelFilter::Info => log::LevelFilter::Info,
        LevelFilter::Debug => log::LevelFilter::Debug,
        LevelFilter::Trace => log::LevelFilter::Trace,
    })
}

/// Reads the process-wide maximum level of the `log` facade
/// (`log::max_level`). It is whatever the last `log::set_max_level`
/// in the process stored, which no argument shows, so nothing is stated.
#[verifier::external_body]
pub(crate) fn max_level() -> (r: LevelFilter) {
    match log::max_level() {
        log::LevelFilter::Off => LevelFilter::Off,
        log::LevelFilter::Error => LevelFilter::Error,
        log::LevelFilter::Warn => LevelFilter::Warn,
        log::LevelFilter::Info => LevelFilter::Info,
        log::LevelFilter::Debug => LevelFilter::Debug,
        log::LevelFilter::Trace => LevelFilter::Trace,
    }
}

} // verus!
