//! The logger: what it records, and with which filters.

use crate::circular::latest;
use crate::circular::CircularBuffer;
use crate::clock::is_clock_reading;
use crate::clock::local_now;
use crate::clock::Timestamp;
use crate::config::LevelConfig;
use crate::level::Level;
use crate::level::LevelFilter;
use crate::text::opt_text;
use vstd::arithmetic::div_mod::lemma_fundamental_div_mod;
use vstd::arithmetic::div_mod::lemma_fundamental_div_mod_converse;
use vstd::prelude::*;

verus! {

/// The depth of the buffer that a new logger shows events from.
pub const DEFAULT_BUFFER_DEPTH: usize = 10000;

/// An event as it is handed to the logger.
pub struct Record {
    pub level: Level,
    pub target: String,
    pub file: Option<String>,
    pub line: Option<u32>,
    pub module: Option<String>,
    pub msg: String,
}

/// An event as it is kept: with the time at which it was logged, and without gaps.
pub struct ExtLogRecord {
    pub timestamp: Timestamp,
    pub level: Level,
    pub target: String,
    pub file: String,
    pub line: u32,
    pub msg: String,
}

/// What an `ExtLogRecord` says.
pub struct EventView {
    pub timestamp: Timestamp,
    pub level: Level,
    pub target: Seq<char>,
    pub file: Seq<char>,
    pub line: u32,
    pub msg: Seq<char>,
}

impl View for ExtLogRecord {
    type V = EventView;

    open spec fn view(&self) -> EventView {
        EventView {
            timestamp: self.timestamp,
            level: self.level,
            target: self.target@,
            file: self.file@,
            line: self.line,
            msg: self.msg@,
        }
    }
}

/// What a `Record` says.
pub struct RecordView {
    pub level: Level,
    pub target: Seq<char>,
    pub file: Option<Seq<char>>,
    pub line: Option<u32>,
    pub module: Option<Seq<char>>,
    pub msg: Seq<char>,
}

impl View for Record {
    type V = RecordView;

    open spec fn view(&self) -> RecordView {
        RecordView {
            level: self.level,
            target: self.target@,
            file: opt_text(self.file),
            line: self.line,
            module: opt_text(self.module),
            msg: self.msg@,
        }
    }
}

/// What is kept of a record that is logged at the given time: a missing file is written as a
/// question mark, a missing line as zero. The path of the module is not kept.
pub open spec fn entry_of(record: RecordView, timestamp: Timestamp) -> EventView {
    EventView {
        timestamp,
        level: record.level,
        target: record.target,
        file: match record.file {
            Some(file) => file,
            None => "?"@,
        },
        line: match record.line {
            Some(line) => line,
            None => 0,
        },
        msg: record.msg,
    }
}

impl ExtLogRecord {
    /// The entry for a record that is logged at the given time.
    pub fn new(record: &Record, timestamp: Timestamp) -> (r: ExtLogRecord)
        ensures
            r@ == entry_of(record@, timestamp),
    {
        ExtLogRecord {
            timestamp,
            level: record.level,
            target: record.target.clone(),
            file: match &record.file {
                Some(file) => file.clone(),
                None => "?".to_owned(),
            },
            line: match record.line {
                Some(line) => line,
                None => 0,
            },
            msg: record.msg.clone(),
        }
    }
}

/// The buffer that events are logged into.
pub struct HotLog {
    pub events: CircularBuffer<ExtLogRecord>,
}

impl HotLog {
    /// The buffer is deep enough to have a half.
    pub open spec fn wf(&self) -> bool {
        self.events.wf() && self.events.depth() >= 2
    }

    /// An empty buffer of the given depth.
    pub fn new(depth: usize) -> (r: HotLog)
        requires
            depth >= 2,
        ensures
            r.wf(),
            r.events@ == Seq::<ExtLogRecord>::empty(),
            r.events.depth() == depth,
            r.events.total() == 0,
    {
        HotLog { events: CircularBuffer::new(depth) }
    }

    /// Keep an entry. The result says whether the events should be moved on now: each time that
    /// another half of the buffer has been filled.
    pub fn push_entry(&mut self, entry: ExtLogRecord) -> (need_signal: bool)
        requires
            old(self).wf(),
            old(self).events.total() < usize::MAX,
        ensures
            final(self).wf(),
            final(self).events@ == latest(old(self).events@.push(entry), old(self).events.depth()),
            final(self).events.depth() == old(self).events.depth(),
            final(self).events.total() == old(self).events.total() + 1,
            need_signal == ((old(self).events.total() + 1) % (old(self).events.depth() / 2) == 0),
    {
        self.events.push(entry);
        self.events.total_elements() % (self.events.capacity() / 2) == 0
    }

    /// Log a record at the present time. The result is that of `push_entry`.
    pub fn raw_log(&mut self, record: &Record) -> (need_signal: bool)
        requires
            old(self).wf(),
            old(self).events.total() < usize::MAX,
        ensures
            final(self).wf(),
            final(self).events@.len() > 0,
            final(self).events@.last()@ == entry_of(
                record@,
                final(self).events@.last().timestamp,
            ),
            is_clock_reading(final(self).events@.last().timestamp),
            final(self).events@ == latest(
                old(self).events@.push(final(self).events@.last()),
                old(self).events.depth(),
            ),
            final(self).events.depth() == old(self).events.depth(),
            final(self).events.total() == old(self).events.total() + 1,
            need_signal == ((old(self).events.total() + 1) % (old(self).events.depth() / 2) == 0),
    {
        let entry: ExtLogRecord = ExtLogRecord::new(record, local_now());
        let ghost kept = entry;
        let need_signal: bool = self.push_entry(entry);
        assert(self.events@.last() == kept);
        need_signal
    }
}

/// What the widgets show, and the filters that decide what is recorded.
pub struct TuiLoggerInner {
    pub events: CircularBuffer<ExtLogRecord>,
    pub total_events: usize,
    pub default: LevelFilter,
    pub targets: LevelConfig,
}

/// The filter that events of a target are recorded with: its own, or the default one if the
/// target is unknown.
pub open spec fn recording_level(
    levels: Map<Seq<char>, LevelFilter>,
    default: LevelFilter,
    target: Seq<char>,
) -> LevelFilter {
    match levels.get(target) {
        Some(level) => level,
        None => default,
    }
}

impl TuiLoggerInner {
    /// The buffer and the filters are sound.
    pub open spec fn wf(&self) -> bool {
        self.events.wf() && self.targets.wf()
    }

    /// Nothing shown yet, no targets, and `Info` as the default filter.
    pub fn new() -> (r: TuiLoggerInner)
        ensures
            r.wf(),
            r.events@ == Seq::<ExtLogRecord>::empty(),
            r.events.depth() == DEFAULT_BUFFER_DEPTH,
            r.events.total() == 0,
            r.total_events == 0,
            r.default == LevelFilter::Info,
            r.targets@ == Map::<Seq<char>, LevelFilter>::empty(),
            r.targets.display_level() is None,
    {
        TuiLoggerInner {
            events: CircularBuffer::new(DEFAULT_BUFFER_DEPTH),
            total_events: 0,
            default: LevelFilter::Info,
            targets: LevelConfig::new(),
        }
    }

    /// Whether events of this target and level are recorded.
    pub fn enabled(&self, target: &str, level: Level) -> (r: bool)
        requires
            self.wf(),
        ensures
            r == recording_level(self.targets@, self.default, target@).lets_through(level),
    {
        let filter: LevelFilter = match self.targets.get(target) {
            Some(filter) => filter,
            None => self.default,
        };
        filter.allows(level)
    }

    /// The number of events shown and the milliseconds from the first to the last of them, if
    /// there are any and time has passed between them.
    pub fn rate(&self) -> (r: Option<(usize, i128)>)
        requires
            self.wf(),
        ensures
            r == event_rate(self.events@),
    {
        let events: Vec<&ExtLogRecord> = self.events.iter();
        if events.len() == 0 {
            return None;
        }
        let first: i128 = events[0].timestamp.timestamp_millis();
        let last: i128 = events[events.len() - 1].timestamp.timestamp_millis();
        let dt: i128 = last - first;
        if dt > 0 {
            Some((self.events.len(), dt))
        } else {
            None
        }
    }
}

/// The number of events and the milliseconds from the first to the last of them, if there are
/// any and time has passed between them.
pub open spec fn event_rate(events: Seq<ExtLogRecord>) -> Option<(usize, i128)> {
    let dt = events.last().timestamp.millis() - events.first().timestamp.millis();
    if events.len() > 0 && dt > 0 {
        Some((events.len() as usize, dt as i128))
    } else {
        None
    }
}

/// Set the depth of the circular buffer in order to avoid message loss.
/// This will delete all existing messages in the circular buffer.
pub fn set_buffer_depth(inner: &mut TuiLoggerInner, depth: usize)
    requires
        old(inner).wf(),
    ensures
        final(inner).wf(),
        final(inner).events@ == Seq::<ExtLogRecord>::empty(),
        final(inner).events.depth() == depth,
        final(inner).events.total() == 0,
        final(inner).total_events == old(inner).total_events,
        final(inner).default == old(inner).default,
        final(inner).targets == old(inner).targets,
{
    inner.events = CircularBuffer::new(depth);
}

/// Set default levelfilter for unknown targets of the logger
pub fn set_default_level(inner: &mut TuiLoggerInner, levelfilter: LevelFilter)
    requires
        old(inner).wf(),
    ensures
        final(inner).wf(),
        final(inner).default == levelfilter,
        final(inner).events == old(inner).events,
        final(inner).total_events == old(inner).total_events,
        final(inner).targets == old(inner).targets,
{
    inner.default = levelfilter;
}

/// Set levelfilter for a specific target in the logger
pub fn set_level_for_target(inner: &mut TuiLoggerInner, target: &str, levelfilter: LevelFilter)
    requires
        old(inner).wf(),
    ensures
        final(inner).wf(),
        final(inner).targets@ == old(inner).targets@.insert(target@, levelfilter),
        final(inner).targets.display_level() == old(inner).targets.display_level(),
        final(inner).events == old(inner).events,
        final(inner).total_events == old(inner).total_events,
        final(inner).default == old(inner).default,
{
    inner.targets.set(target, levelfilter);
}

/// The logger: what is being logged, and what is shown of it.
pub struct TuiLogger {
    pub inner: TuiLoggerInner,
    pub hot_log: HotLog,
}

/// How a record changes a logger: if its target records events of its level, it is kept with
/// the time at which it was logged, and a move of the events is due each time that another half
/// of the buffer has been filled. Otherwise nothing changes.
pub open spec fn logged(
    before: TuiLogger,
    record: RecordView,
    after: TuiLogger,
    need_signal: bool,
) -> bool {
    let enabled = recording_level(
        before.inner.targets@,
        before.inner.default,
        record.target,
    ).lets_through(record.level);
    let old_events = before.hot_log.events;
    let events = after.hot_log.events;
    &&& after.inner == before.inner
    &&& !enabled ==> after.hot_log == before.hot_log && !need_signal
    &&& enabled ==> {
        &&& events@.len() > 0
        &&& events@.last()@ == entry_of(record, events@.last().timestamp)
        &&& is_clock_reading(events@.last().timestamp)
        &&& events@ == latest(old_events@.push(events@.last()), old_events.depth())
        &&& events.depth() == old_events.depth()
        &&& events.total() == old_events.total() + 1
        &&& need_signal == ((old_events.total() + 1) % (old_events.depth() / 2) == 0)
    }
}

impl TuiLogger {
    /// Both parts are sound.
    pub open spec fn wf(&self) -> bool {
        self.inner.wf() && self.hot_log.wf()
    }

    /// A logger that has logged nothing.
    pub fn new(hot_depth: usize) -> (r: TuiLogger)
        requires
            hot_depth >= 2,
        ensures
            r.wf(),
            r.inner.events@ == Seq::<ExtLogRecord>::empty(),
            r.inner.events.depth() == DEFAULT_BUFFER_DEPTH,
            r.inner.total_events == 0,
            r.inner.default == LevelFilter::Info,
            r.inner.events.total() == 0,
            r.inner.targets@ == Map::<Seq<char>, LevelFilter>::empty(),
            r.inner.targets.display_level() is None,
            r.hot_log.events@ == Seq::<ExtLogRecord>::empty(),
            r.hot_log.events.depth() == hot_depth,
            r.hot_log.events.total() == 0,
    {
        TuiLogger { inner: TuiLoggerInner::new(), hot_log: HotLog::new(hot_depth) }
    }

    /// Log a record if its target records events of its level. The result says whether the
    /// events should be moved on now.
    pub fn log(&mut self, record: &Record) -> (need_signal: bool)
        requires
            old(self).wf(),
            old(self).hot_log.events.total() < usize::MAX,
        ensures
            final(self).wf(),
            logged(*old(self), record@, *final(self), need_signal),
            final(self).hot_log.events.total() == old(self).hot_log.events.total() + if (match old(
                self,
            ).inner.targets@.get(record.target@) {
                Some(level) => level,
                None => old(self).inner.default,
            }).lets_through(record.level) {
                1int
            } else {
                0
            },
    {
        if self.inner.enabled(record.target.as_str(), record.level) {
            self.hot_log.raw_log(record)
        } else {
            false
        }
    }
}

/// A level that was set for a target is the one it is recorded with, and setting it leaves the
/// other targets as they were.
pub proof fn law_level_set_is_used(
    levels: Map<Seq<char>, LevelFilter>,
    default: LevelFilter,
    target: Seq<char>,
    level: LevelFilter,
    other: Seq<char>,
)
    ensures
        recording_level(levels.insert(target, level), default, target) == level,
        other != target ==> recording_level(levels.insert(target, level), default, other)
            == recording_level(levels, default, other),
{
}

/// A target that the logger does not know is recorded with the default filter, so that a widget
/// may list targets of which nothing was logged yet.
pub proof fn law_unknown_target_has_default(
    levels: Map<Seq<char>, LevelFilter>,
    default: LevelFilter,
    target: Seq<char>,
)
    requires
        !levels.contains_key(target),
    ensures
        recording_level(levels, default, target) == default,
{
}

/// A record is kept exactly if the level of its target lets it through, or, only for a target
/// without a level of its own, the default level does. A record that is not kept changes nothing.
pub proof fn law_level_of_target_decides(record: &Record)
    ensures
        forall|l: &mut TuiLogger, r: bool| #[trigger]
            call_ensures(TuiLogger::log, (l, record), r) ==> {
                let known = l.inner.targets@.contains_key(record.target@);
                let own = l.inner.targets@[record.target@];
                let kept = (known && own.lets_through(record.level)) || (!known
                    && l.inner.default.lets_through(record.level));
                &&& kept ==> final(l).hot_log.events.total() == l.hot_log.events.total() + 1
                &&& !kept ==> *final(l) == *l && !r
                &&& final(l).inner == l.inner
            },
        forall|i: TuiLoggerInner, target: &str, level: Level, r: bool| #[trigger]
            call_ensures(TuiLoggerInner::enabled, (&i, target, level), r) ==> (r <==> if i.targets@.contains_key(
                target@,
            ) {
                i.targets@[target@].lets_through(level)
            } else {
                i.default.lets_through(level)
            }),
{
}

/// After the level of a target was set, a record of this target is kept exactly if that level lets
/// it through, whatever the default level is; records of other targets are kept as before.
pub proof fn law_set_level_is_followed(target: &str, level: LevelFilter, record: &Record)
    ensures
        forall|a: &mut TuiLoggerInner, l: &mut TuiLogger, r: bool|
            (#[trigger] call_ensures(set_level_for_target, (a, target, level), ()) && #[trigger]
                call_ensures(TuiLogger::log, (l, record), r) && l.inner == *final(a)
                && record.target@ == target@) ==> final(l).hot_log.events.total()
                == l.hot_log.events.total() + if level.lets_through(record.level) {
                1int
            } else {
                0
            },
        forall|a: &mut TuiLoggerInner, x: &mut TuiLogger, y: &mut TuiLogger, r: bool, q: bool|
            (#[trigger] call_ensures(set_level_for_target, (a, target, level), ()) && #[trigger]
                call_ensures(TuiLogger::log, (x, record), r) && #[trigger] call_ensures(
                TuiLogger::log,
                (y, record),
                q,
            ) && x.inner == *a && y.inner == *final(a) && x.hot_log == y.hot_log
                && record.target@ != target@) ==> final(x).hot_log.events.total()
                == final(y).hot_log.events.total(),
        forall|a: &mut TuiLoggerInner, l: &mut TuiLogger, r: bool|
            (#[trigger] call_ensures(set_default_level, (a, level), ()) && #[trigger] call_ensures(
                TuiLogger::log,
                (l, record),
                r,
            ) && l.inner == *final(a) && !a.targets@.contains_key(record.target@))
                ==> final(l).hot_log.events.total() == l.hot_log.events.total()
                + if level.lets_through(record.level) {
                1int
            } else {
                0
            },
{
}

/// A record that is kept stands last in the buffer, with its own level, target and message, its
/// file and line as far as they are known, and a time of the clock. Of what was there before, only
/// the oldest entry is forgotten, and only if the buffer was full.
pub proof fn law_kept_record_stands_last(record: &Record)
    ensures
        forall|l: &mut TuiLogger, r: bool|
            (#[trigger] call_ensures(TuiLogger::log, (l, record), r)
                && final(l).hot_log.events.total() != l.hot_log.events.total()
                && l.hot_log.events@.len() <= l.hot_log.events.depth()
                && l.hot_log.events.depth() > 0) ==> {
                let before = l.hot_log.events@;
                let after = final(l).hot_log.events@;
                let entry = after.last();
                &&& after.len() > 0
                &&& entry.level == record.level
                &&& entry.target@ == record.target@
                &&& entry.msg@ == record.msg@
                &&& match record.file {
                    Some(file) => entry.file@ == file@,
                    None => entry.file@ == "?"@,
                }
                &&& match record.line {
                    Some(line) => entry.line == line,
                    None => entry.line == 0,
                }
                &&& entry.timestamp.nanos < 2_000_000_000
                &&& -86_400 < entry.timestamp.offset < 86_400
                &&& before.len() < l.hot_log.events.depth() ==> after.drop_last() == before
                &&& before.len() == l.hot_log.events.depth() ==> after.drop_last()
                    == before.drop_first()
            },
        forall|ts: Timestamp, r: ExtLogRecord| #[trigger]
            call_ensures(ExtLogRecord::new, (record, ts), r) ==> {
                &&& r.timestamp == ts
                &&& r.level == record.level
                &&& r.target@ == record.target@
                &&& r.msg@ == record.msg@
                &&& record.file matches Some(file) ==> r.file@ == file@
                &&& record.file is None ==> r.file@ == "?"@
                &&& record.line matches Some(line) ==> r.line == line
                &&& record.line is None ==> r.line == 0
            },
{
    assert forall|l: &mut TuiLogger, r: bool|
        (#[trigger] call_ensures(TuiLogger::log, (l, record), r) && final(l).hot_log.events.total()
            != l.hot_log.events.total() && l.hot_log.events@.len() <= l.hot_log.events.depth()
            && l.hot_log.events.depth() > 0) implies ({
        let before = l.hot_log.events@;
        let after = final(l).hot_log.events@;
        &&& before.len() < l.hot_log.events.depth() ==> after.drop_last() == before
        &&& before.len() == l.hot_log.events.depth() ==> after.drop_last() == before.drop_first()
    }) by {
        let before = l.hot_log.events@;
        let after = final(l).hot_log.events@;
        if before.len() < l.hot_log.events.depth() {
            assert(after.drop_last() =~= before);
        } else {
            assert(after.drop_last() =~= before.drop_first());
        }
    }
}

/// A signal comes when as many entries have been logged as make up a whole number of halves of
/// the buffer, and at no other time.
pub proof fn law_signal_comes_with_each_half(record: &Record, halves: int)
    ensures
        forall|h: &mut HotLog, entry: ExtLogRecord, r: bool|
            (#[trigger] call_ensures(HotLog::push_entry, (h, entry), r) && h.events.depth() >= 2)
                ==> {
                let half = h.events.depth() / 2;
                &&& final(h).events.total() == h.events.total() + 1
                &&& final(h).events.total() == halves * half ==> r
                &&& r ==> final(h).events.total() == (final(h).events.total() / half) * half
            },
        forall|l: &mut TuiLogger, r: bool|
            (#[trigger] call_ensures(TuiLogger::log, (l, record), r)
                && final(l).hot_log.events.total() == l.hot_log.events.total() + 1
                && l.hot_log.events.depth() >= 2) ==> {
                let half = l.hot_log.events.depth() / 2;
                &&& final(l).hot_log.events.total() == halves * half ==> r
                &&& r ==> final(l).hot_log.events.total() == (final(l).hot_log.events.total()
                    / half) * half
            },
{
    assert forall|n: nat, half: nat| half > 0 implies {
        &&& n == halves * half ==> #[trigger] (n % half) == 0
        &&& n % half == 0 ==> n == (n / half) * half
    } by {
        lemma_fundamental_div_mod(n as int, half as int);
        assert((n / half) * half == half * (n / half)) by (nonlinear_arith);
        if n == halves * half {
            assert(n == half * halves + 0) by (nonlinear_arith)
                requires
                    n == halves * half,
            ;
            lemma_fundamental_div_mod_converse(n as int, half as int, halves, 0);
        }
    }
}

/// The rate counts all events in the buffer over the time from the first to the last of them. There
/// is none if there are no events, or if the last is not later by a millisecond at least.
pub proof fn law_rate_spans_buffer(i: TuiLoggerInner)
    ensures
        forall|r: Option<(usize, i128)>|
            (#[trigger] call_ensures(TuiLoggerInner::rate, (&i,), r) && i.events@.len()
                <= usize::MAX) ==> {
                let first = i.events@[0].timestamp;
                let last = i.events@[i.events@.len() - 1].timestamp;
                &&& i.events@.len() == 0 ==> r is None
                &&& i.events@.len() > 0 && last.millis() <= first.millis() ==> r is None
                &&& i.events@.len() > 0 && last.millis() > first.millis() ==> (r matches Some(
                    (n, dt),
                ) && n == i.events@.len() && dt == last.millis() - first.millis())
            },
{
}

/// Each setting changes what it is named after and nothing else; a new depth deletes all messages.
pub proof fn law_settings_are_apart(depth: usize, level: LevelFilter, target: &str)
    ensures
        forall|i: &mut TuiLoggerInner| #[trigger]
            call_ensures(set_buffer_depth, (i, depth), ()) ==> {
                &&& final(i).events@.len() == 0
                &&& final(i).events.depth() == depth
                &&& final(i).events.total() == 0
                &&& final(i).default == i.default
                &&& final(i).targets == i.targets
                &&& final(i).total_events == i.total_events
            },
        forall|i: &mut TuiLoggerInner| #[trigger]
            call_ensures(set_default_level, (i, level), ()) ==> {
                &&& final(i).default == level
                &&& final(i).events == i.events
                &&& final(i).targets == i.targets
                &&& final(i).total_events == i.total_events
            },
        forall|i: &mut TuiLoggerInner| #[trigger]
            call_ensures(set_level_for_target, (i, target, level), ()) ==> {
                &&& final(i).targets@ == i.targets@.insert(target@, level)
                &&& final(i).targets.display_level() == i.targets.display_level()
                &&& final(i).events == i.events
                &&& final(i).default == i.default
                &&& final(i).total_events == i.total_events
            },
        forall|i: TuiLoggerInner| #[trigger]
            call_ensures(TuiLoggerInner::new, (), i) ==> {
                &&& i.events@.len() == 0 && i.events.depth() == 10000 && i.events.total() == 0
                &&& i.default == LevelFilter::Info
                &&& i.targets@ == Map::<Seq<char>, LevelFilter>::empty()
                &&& i.targets.display_level() is None
                &&& i.total_events == 0
            },
        forall|l: TuiLogger| #[trigger]
            call_ensures(TuiLogger::new, (depth,), l) ==> {
                &&& l.hot_log.events@.len() == 0 && l.hot_log.events.depth() == depth
                &&& l.hot_log.events.total() == 0
                &&& l.inner.events@.len() == 0 && l.inner.events.depth() == 10000
                &&& l.inner.default == LevelFilter::Info
                &&& l.inner.targets@ == Map::<Seq<char>, LevelFilter>::empty()
            },
{
}

/// Logging without a look at the levels always keeps the record, as `log` keeps one that is let
/// through; and a new buffer for events is empty and has the depth that was asked for.
pub proof fn law_raw_log_keeps_all(record: &Record, depth: usize)
    ensures
        forall|h: &mut HotLog, r: bool| #[trigger]
            call_ensures(HotLog::raw_log, (h, record), r) ==> {
                let entry = final(h).events@.last();
                &&& final(h).events.total() == h.events.total() + 1
                &&& final(h).events.depth() == h.events.depth()
                &&& final(h).events@.len() > 0
                &&& entry.level == record.level && entry.target@ == record.target@
                &&& entry.msg@ == record.msg@
            },
        forall|h: &mut HotLog, r: bool, l: &mut TuiLogger, q: bool|
            (#[trigger] call_ensures(HotLog::raw_log, (h, record), r) && #[trigger] call_ensures(
                TuiLogger::log,
                (l, record),
                q,
            ) && l.hot_log == *h && final(l).hot_log.events.total() != l.hot_log.events.total())
                ==> r == q && final(l).hot_log.events.total() == final(h).events.total()
                && final(l).hot_log.events@.len() == final(h).events@.len(),
        forall|h: HotLog| #[trigger]
            call_ensures(HotLog::new, (depth,), h) ==> h.events@.len() == 0 && h.events.depth()
                == depth && h.events.total() == 0,
{
}

} // verus!
