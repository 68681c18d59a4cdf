//! Severities of log events and the filters that let them through.

use vstd::prelude::*;

verus! {

/// The severity of a log event, the most severe first.
#[derive(Clone, Copy, Debug, PartialEq, Eq, Structural)]
pub enum Level {
    Error,
    Warn,
    Info,
    Debug,
    Trace,
}

/// How verbose a target may be, from nothing at all to everything.
#[derive(Clone, Copy, Debug, PartialEq, Eq, Structural)]
pub enum LevelFilter {
    Off,
    Error,
    Warn,
    Info,
    Debug,
    Trace,
}

impl Level {
    /// The verbosity that a filter needs to let this level through.
    pub open spec fn rank(self) -> nat {
        match self {
            Level::Error => 1,
            Level::Warn => 2,
            Level::Info => 3,
            Level::Debug => 4,
            Level::Trace => 5,
        }
    }

    /// The verbosity that a filter needs to let this level through.
    fn number(self) -> (r: u8)
        ensures
            r == self.rank(),
    {
        match self {
            Level::Error => 1,
            Level::Warn => 2,
            Level::Info => 3,
            Level::Debug => 4,
            Level::Trace => 5,
        }
    }
}

impl LevelFilter {
    /// The verbosity of this filter.
    pub open spec fn rank(self) -> nat {
        match self {
            LevelFilter::Off => 0,
            LevelFilter::Error => 1,
            LevelFilter::Warn => 2,
            LevelFilter::Info => 3,
            LevelFilter::Debug => 4,
            LevelFilter::Trace => 5,
        }
    }

    /// The verbosity of this filter.
    fn number(self) -> (r: u8)
        ensures
            r == self.rank(),
    {
        match self {
            LevelFilter::Off => 0,
            LevelFilter::Error => 1,
            LevelFilter::Warn => 2,
            LevelFilter::Info => 3,
            LevelFilter::Debug => 4,
            LevelFilter::Trace => 5,
        }
    }

    /// Whether events of the given level pass this filter.
    pub open spec fn lets_through(self, level: Level) -> bool {
        level.rank() <= self.rank()
    }

    /// Whether events of the given level pass this filter.
    pub fn allows(self, level: Level) -> (r: bool)
        ensures
            r == self.lets_through(level),
    {
        level.number() <= self.number()
    }

    /// Whether this filter is no more verbose than the other.
    pub fn at_most(self, other: LevelFilter) -> (r: bool)
        ensures
            r == (self.rank() <= other.rank()),
    {
        self.number() <= other.number()
    }
}

/// The next more verbose filter, if there is one.
pub open spec fn more_verbose(filter: LevelFilter) -> Option<LevelFilter> {
    match filter {
        LevelFilter::Off => Some(LevelFilter::Error),
        LevelFilter::Error => Some(LevelFilter::Warn),
        LevelFilter::Warn => Some(LevelFilter::Info),
        LevelFilter::Info => Some(LevelFilter::Debug),
        LevelFilter::Debug => Some(LevelFilter::Trace),
        LevelFilter::Trace => None,
    }
}

/// The next less verbose filter, if there is one.
pub open spec fn less_verbose(filter: LevelFilter) -> Option<LevelFilter> {
    match filter {
        LevelFilter::Off => None,
        LevelFilter::Error => Some(LevelFilter::Off),
        LevelFilter::Warn => Some(LevelFilter::Error),
        LevelFilter::Info => Some(LevelFilter::Warn),
        LevelFilter::Debug => Some(LevelFilter::Info),
        LevelFilter::Trace => Some(LevelFilter::Debug),
    }
}

/// The filters next to the given one: first the more verbose, then the less verbose.
pub fn advance_levelfilter(levelfilter: LevelFilter) -> (r: (
    Option<LevelFilter>,
    Option<LevelFilter>,
))
    ensures
        r.0 == more_verbose(levelfilter),
        r.1 == less_verbose(levelfilter),
{
    match levelfilter {
        LevelFilter::Trace => (None, Some(LevelFilter::Debug)),
        LevelFilter::Debug => (Some(LevelFilter::Trace), Some(LevelFilter::Info)),
        LevelFilter::Info => (Some(LevelFilter::Debug), Some(LevelFilter::Warn)),
        LevelFilter::Warn => (Some(LevelFilter::Info), Some(LevelFilter::Error)),
        LevelFilter::Error => (Some(LevelFilter::Warn), Some(LevelFilter::Off)),
        LevelFilter::Off => (Some(LevelFilter::Error), None),
    }
}

/// A step to more verbosity raises the rank by one and is undone by a step to less.
pub proof fn law_more_undone_by_less(filter: LevelFilter)
    ensures
        more_verbose(filter) matches Some(more) ==> more.rank() == filter.rank() + 1
            && less_verbose(more) == Some(filter),
        more_verbose(filter) is None <==> filter == LevelFilter::Trace,
{
}

/// A step to less verbosity lowers the rank by one and is undone by a step to more.
pub proof fn law_less_undone_by_more(filter: LevelFilter)
    ensures
        less_verbose(filter) matches Some(less) ==> less.rank() + 1 == filter.rank()
            && more_verbose(less) == Some(filter),
        less_verbose(filter) is None <==> filter == LevelFilter::Off,
{
}

/// A filter lets through the level it is named after and all that are more severe; `Off` lets
/// nothing through.
pub proof fn law_filters_let_through(level: Level)
    ensures
        !LevelFilter::Off.lets_through(level),
        LevelFilter::Error.lets_through(level) <==> level == Level::Error,
        LevelFilter::Warn.lets_through(level) <==> level == Level::Error || level == Level::Warn,
        LevelFilter::Info.lets_through(level) <==> level == Level::Error || level == Level::Warn
            || level == Level::Info,
        LevelFilter::Debug.lets_through(level) <==> level != Level::Trace,
        LevelFilter::Trace.lets_through(level),
{
}

/// One filter is at most as verbose as another if the other lets through all that it does.
pub proof fn law_rank_is_verbosity(a: LevelFilter, b: LevelFilter)
    ensures
        a.rank() <= b.rank() <==> forall|level: Level|
            #![trigger a.lets_through(level)]
            a.lets_through(level) ==> b.lets_through(level),
        a.rank() == b.rank() ==> a == b,
        a.rank() <= 5,
{
    assert(a.lets_through(Level::Error) || a.rank() == 0);
    assert(a.lets_through(Level::Warn) || a.rank() < 2);
    assert(a.lets_through(Level::Info) || a.rank() < 3);
    assert(a.lets_through(Level::Debug) || a.rank() < 4);
    assert(a.lets_through(Level::Trace) || a.rank() < 5);
}

/// The calls of `allows`, `at_most` and `advance_levelfilter` follow the verbosity of the filters:
/// there is no filter between one and its neighbours.
pub proof fn law_calls_follow_verbosity(filter: LevelFilter, other: LevelFilter, level: Level)
    ensures
        forall|r: bool| #[trigger]
            call_ensures(LevelFilter::allows, (filter, level), r) ==> r == filter.lets_through(
                level,
            ),
        forall|r: bool| #[trigger]
            call_ensures(LevelFilter::at_most, (filter, other), r) ==> (r <==> filter.rank()
                <= other.rank()),
        forall|r: (Option<LevelFilter>, Option<LevelFilter>)| #[trigger]
            call_ensures(advance_levelfilter, (filter,), r) ==> {
                &&& r.0 is None <==> filter == LevelFilter::Trace
                &&& r.1 is None <==> filter == LevelFilter::Off
                &&& r.0 matches Some(more) ==> filter.rank() < more.rank() && !(filter.rank()
                    < other.rank() < more.rank())
                &&& r.1 matches Some(less) ==> less.rank() < filter.rank() && !(less.rank()
                    < other.rank() < filter.rank())
            },
{
}

} // verus!
