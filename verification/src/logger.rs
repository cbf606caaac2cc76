//! How much is logged, and of what.
use vstd::prelude::*;
use vstd::string::*;

use crate::text::starts_with;

verus! {

/// The level of a log record, most important first.
#[derive(Clone, Copy, Debug, PartialEq, Eq, Structural)]
pub enum Level {
    Error,
    Warn,
    Info,
    Debug,
    Trace,
}

impl Level {
    /// The rank of the level, which grows with verbosity.
    pub open spec fn rank(&self) -> int {
        match *self {
            Level::Error => 1,
            Level::Warn => 2,
            Level::Info => 3,
            Level::Debug => 4,
            Level::Trace => 5,
        }
    }

    /// Whether the level is more verbose than [`Level::Info`].
    pub fn is_verbose(&self) -> (b: bool)
        ensures
            b == (self.rank() > Level::Info.rank()),
    {
        match self {
            Level::Debug => true,
            Level::Trace => true,
            _ => false,
        }
    }
}

/// The settings of a logger.
#[derive(Clone, Copy, Debug, PartialEq, Eq, Structural)]
pub struct LogSetup {
    /// The most verbose level that is logged at all.
    pub max_level: Level,
    /// Whether the verbose levels are only logged for the targets of this
    /// project.
    pub filter: bool,
}

/// The settings for a level of detail.
pub open spec fn setup_for(level: u32) -> LogSetup {
    LogSetup {
        max_level: if level == 0 {
            Level::Info
        } else if level < 3 {
            Level::Debug
        } else {
            Level::Trace
        },
        filter: level < 2,
    }
}

/// The settings for a level of detail, as given by the number of flags that ask
/// for more.
pub fn setup_logger(level: u32) -> (r: LogSetup)
    ensures
        r == setup_for(level),
{
    let max_level = if level == 0 {
        Level::Info
    } else if level < 3 {
        Level::Debug
    } else {
        Level::Trace
    };
    LogSetup { max_level, filter: level < 2 }
}

/// Whether a target is one of this project.
pub open spec fn is_own_target(target: Seq<char>) -> bool {
    ||| "body_image"@.is_prefix_of(target)
    ||| "barc"@.is_prefix_of(target)
    ||| "blocking_permit"@.is_prefix_of(target)
}

impl LogSetup {
    /// Whether a record of some target and level is let through. All of them
    /// are, unless verbose records are filtered.
    pub fn lets_through(&self, target: &str, level: Level) -> (b: bool)
        ensures
            b == (!self.filter || is_own_target(target@) || level.rank() <= Level::Info.rank()),
    {
        !(self.filter && !starts_with(target, "body_image") && !starts_with(target, "barc") && !starts_with(
            target,
            "blocking_permit",
        ) && level.is_verbose())
    }
}

/// The logger of a test run, which is set up at most once.
#[derive(Debug)]
pub struct TestLog {
    /// Whether it was decided what to set up.
    pub done: bool,
    /// What was set up, if anything.
    pub setup: Option<LogSetup>,
}

impl TestLog {
    /// Nothing is set up yet.
    pub fn new() -> (r: TestLog)
        ensures
            !r.done,
            r.setup is None,
    {
        TestLog { done: false, setup: None }
    }

    /// Set up the logger for a test run, if that was not done before. With level
    /// 0 nothing is logged. Above that, one less is the level of detail.
    pub fn test_logger(&mut self, level: u32) -> (b: bool)
        ensures
            b,
            final(self).done,
            old(self).done ==> *final(self) == *old(self),
            !old(self).done ==> final(self).setup == (if level > 0 {
                Some(setup_for((level - 1) as u32))
            } else {
                None
            }),
    {
        if !self.done {
            self.done = true;
            self.setup = if level > 0 { Some(setup_logger(level - 1)) } else { None };
        }
        true
    }
}

/// A higher level of detail never shows less: what one lets through, so does the
/// next.
pub proof fn law_more_detail_shows_more(level: u32, target: Seq<char>, of: Level)
    requires
        level < u32::MAX,
    ensures
        setup_for(level).max_level.rank() <= setup_for((level + 1) as u32).max_level.rank(),
        (!setup_for(level).filter || is_own_target(target) || of.rank() <= Level::Info.rank()) ==> (
        !setup_for((level + 1) as u32).filter || is_own_target(target) || of.rank() <= Level::Info.rank()),
{
}

/// What is logged by the level of detail: up to info, then up to debug for this
/// project alone, then up to debug for all targets, and from there on everything.
pub proof fn law_levels_of_detail(level: u32, r: LogSetup)
    requires
        call_ensures(setup_logger, (level,), r),
    ensures
        r.max_level is Info <==> level == 0,
        r.max_level is Debug <==> level == 1 || level == 2,
        r.max_level is Trace <==> level >= 3,
        r.filter <==> level == 0 || level == 1,
{
}

/// Verbose records are those of the levels debug and trace. A filter holds these
/// back, unless their target is one of this project by the start of its name. It
/// holds nothing else back.
pub proof fn law_filter(setup: LogSetup, target: &str, level: Level, verbose: bool, b: bool)
    requires
        call_ensures(Level::is_verbose, (&level,), verbose),
        call_ensures(LogSetup::lets_through, (&setup, target, level), b),
    ensures
        verbose <==> level is Debug || level is Trace,
        !setup.filter ==> b,
        !verbose ==> b,
        "body_image"@.is_prefix_of(target@) ==> b,
        "barc"@.is_prefix_of(target@) ==> b,
        "blocking_permit"@.is_prefix_of(target@) ==> b,
        setup.filter && verbose && b ==> "body_image"@.is_prefix_of(target@) || "barc"@.is_prefix_of(target@)
            || "blocking_permit"@.is_prefix_of(target@),
{
}

/// The logger of a test run is set up by the first call, to one level of detail
/// less than the number given, and not at all by a zero. Later calls change
/// nothing.
pub proof fn law_test_logger(
    fresh: TestLog,
    t: &mut TestLog,
    level: u32,
    one_less: u32,
    setup: LogSetup,
    b: bool,
)
    requires
        call_ensures(TestLog::new, (), fresh),
        level > 0 ==> one_less == level - 1 && call_ensures(setup_logger, (one_less,), setup),
        call_ensures(TestLog::test_logger, (t, level), b),
    ensures
        b,
        !fresh.done && fresh.setup is None,
        final(t).done,
        old(t).done ==> final(t).setup == old(t).setup,
        !old(t).done && level == 0 ==> final(t).setup is None,
        !old(t).done && level > 0 ==> final(t).setup == Some(setup),
{
}

} // verus!
