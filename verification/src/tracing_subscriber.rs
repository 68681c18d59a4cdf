//! `tracing-subscriber` support for `tui-logger`

use crate::level::Level;
use crate::logger::logged;
use crate::logger::Record;
use crate::logger::RecordView;
use crate::logger::TuiLogger;
use crate::text::decimal;
use crate::text::decimal_text;
use crate::text::opt_text;
use crate::text::signed_decimal;
use crate::text::signed_decimal_text;
use vstd::prelude::*;

verus! {

/// The levels of traced events.
#[derive(Clone, Copy, Debug, PartialEq, Eq, Structural)]
pub enum TracingLevel {
    Error,
    Warn,
    Info,
    Debug,
    Trace,
}

/// The level at which an event is logged that was traced at a level.
pub open spec fn log_level(level: TracingLevel) -> Level {
    match level {
        TracingLevel::Error => Level::Error,
        TracingLevel::Warn => Level::Warn,
        TracingLevel::Info => Level::Info,
        TracingLevel::Debug => Level::Debug,
        TracingLevel::Trace => Level::Trace,
    }
}

/// Collects the fields of a traced event as text. A field that is recorded again has its last
/// value.
///
/// Its view is the sequence of the fields and their values, in the order in which the fields
/// were first recorded.
pub struct ToStringVisitor {
    fields: Vec<(String, String)>,
}

/// The fields after one was recorded.
pub open spec fn with_field(
    fields: Seq<(Seq<char>, Seq<char>)>,
    name: Seq<char>,
    value: Seq<char>,
) -> Seq<(Seq<char>, Seq<char>)>
    decreases fields.len(),
{
    if fields.len() == 0 {
        seq![(name, value)]
    } else if fields[0].0 == name {
        seq![(name, value)] + fields.drop_first()
    } else {
        seq![fields[0]] + with_field(fields.drop_first(), name, value)
    }
}

/// The value of a field, if it was recorded.
pub open spec fn field_value(fields: Seq<(Seq<char>, Seq<char>)>, name: Seq<char>) -> Option<
    Seq<char>,
>
    decreases fields.len(),
{
    if fields.len() == 0 {
        None
    } else if fields[0].0 == name {
        Some(fields[0].1)
    } else {
        field_value(fields.drop_first(), name)
    }
}

/// The message that is made of fields: each with a space before it, and a colon and a space
/// between its name and its value.
pub open spec fn fields_text(fields: Seq<(Seq<char>, Seq<char>)>) -> Seq<char>
    decreases fields.len(),
{
    if fields.len() == 0 {
        Seq::empty()
    } else {
        fields_text(fields.drop_last()) + " "@ + fields.last().0 + ": "@ + fields.last().1
    }
}

impl View for ToStringVisitor {
    type V = Seq<(Seq<char>, Seq<char>)>;

    closed spec fn view(&self) -> Seq<(Seq<char>, Seq<char>)> {
        pairs(self.fields@)
    }
}

spec fn pairs(fields: Seq<(String, String)>) -> Seq<(Seq<char>, Seq<char>)> {
    fields.map_values(|f: (String, String)| (f.0@, f.1@))
}

proof fn lemma_with_field_at(
    fields: Seq<(Seq<char>, Seq<char>)>,
    name: Seq<char>,
    value: Seq<char>,
    i: int,
)
    requires
        0 <= i <= fields.len(),
        forall|k: int| 0 <= k < i ==> (#[trigger] fields[k]).0 != name,
        i < fields.len() ==> fields[i].0 == name,
    ensures
        i < fields.len() ==> with_field(fields, name, value) == fields.update(i, (name, value)),
        i == fields.len() ==> with_field(fields, name, value) == fields.push((name, value)),
    decreases i,
{
    if i > 0 {
        let rest = fields.drop_first();
        assert forall|k: int| 0 <= k < i - 1 implies (#[trigger] rest[k]).0 != name by {
            assert(rest[k] == fields[k + 1]);
        }
        lemma_with_field_at(rest, name, value, i - 1);
        if i < fields.len() {
            assert(with_field(fields, name, value) =~= fields.update(i, (name, value)));
        } else {
            assert(with_field(fields, name, value) =~= fields.push((name, value)));
        }
    } else if fields.len() > 0 {
        assert(with_field(fields, name, value) =~= fields.update(0, (name, value)));
    } else {
        assert(with_field(fields, name, value) =~= fields.push((name, value)));
    }
}

/// A recorded field has the value it was recorded with, and the other fields keep theirs.
pub proof fn law_last_value_counts(
    fields: Seq<(Seq<char>, Seq<char>)>,
    name: Seq<char>,
    value: Seq<char>,
    other: Seq<char>,
)
    ensures
        field_value(with_field(fields, name, value), name) == Some(value),
        other != name ==> field_value(with_field(fields, name, value), other) == field_value(
            fields,
            other,
        ),
    decreases fields.len(),
{
    let after = with_field(fields, name, value);
    if fields.len() == 0 {
        assert(after.drop_first() =~= Seq::<(Seq<char>, Seq<char>)>::empty());
        assert(field_value(after.drop_first(), other) is None);
    } else if fields[0].0 == name {
        assert(after.drop_first() =~= fields.drop_first());
    } else {
        law_last_value_counts(fields.drop_first(), name, value, other);
        assert(after.drop_first() =~= with_field(fields.drop_first(), name, value));
    }
}

/// No two fields have the same name.
pub open spec fn distinct_names(fields: Seq<(Seq<char>, Seq<char>)>) -> bool {
    forall|i: int, j: int|
        0 <= i < j < fields.len() ==> (#[trigger] fields[i]).0 != (#[trigger] fields[j]).0
}

/// The fields after several were recorded, the first one first, by a visitor that had seen none.
pub open spec fn recorded(fields: Seq<(Seq<char>, Seq<char>)>) -> Seq<(Seq<char>, Seq<char>)>
    decreases fields.len(),
{
    if fields.len() == 0 {
        Seq::empty()
    } else {
        with_field(recorded(fields.drop_last()), fields.last().0, fields.last().1)
    }
}

/// Recording a field keeps the names distinct, so that a message holds each field once.
pub proof fn law_names_stay_distinct(
    fields: Seq<(Seq<char>, Seq<char>)>,
    name: Seq<char>,
    value: Seq<char>,
)
    requires
        distinct_names(fields),
    ensures
        distinct_names(with_field(fields, name, value)),
{
    if exists|k: int| 0 <= k < fields.len() && (#[trigger] fields[k]).0 == name {
        let i = choose|k: int| 0 <= k < fields.len() && (#[trigger] fields[k]).0 == name;
        assert forall|k: int| 0 <= k < i implies (#[trigger] fields[k]).0 != name by {
            assert(fields[k].0 != fields[i].0);
        }
        lemma_with_field_at(fields, name, value, i);
    } else {
        lemma_with_field_at(fields, name, value, fields.len() as int);
    }
}

/// Whatever is recorded, the message that is made of it holds each field once.
pub proof fn law_each_field_once(fields: Seq<(Seq<char>, Seq<char>)>)
    ensures
        distinct_names(recorded(fields)),
    decreases fields.len(),
{
    if fields.len() > 0 {
        law_each_field_once(fields.drop_last());
        law_names_stay_distinct(
            recorded(fields.drop_last()),
            fields.last().0,
            fields.last().1,
        );
    }
}

impl ToStringVisitor {
    /// A visitor that has seen no fields.
    pub fn new() -> (r: ToStringVisitor)
        ensures
            r@ == Seq::<(Seq<char>, Seq<char>)>::empty(),
    {
        let r = ToStringVisitor { fields: Vec::new() };
        assert(r@ =~= Seq::<(Seq<char>, Seq<char>)>::empty());
        r
    }

    /// Record a field whose value is given as text.
    pub fn record_text(&mut self, name: &str, value: String)
        ensures
            final(self)@ == with_field(old(self)@, name@, value@),
    {
        let ghost before = self@;
        let mut i: usize = 0;
        while i < self.fields.len()
            invariant
                before == pairs(self.fields@),
                before == old(self)@,
                i <= self.fields@.len(),
                forall|k: int| 0 <= k < i ==> (#[trigger] before[k]).0 != name@,
            decreases self.fields@.len() - i,
        {
            if text_eq(self.fields[i].0.as_str(), name) {
                self.fields.set(i, (name.to_owned(), value));
                proof {
                    lemma_with_field_at(before, name@, value@, i as int);
                    assert(self@ =~= before.update(i as int, (name@, value@)));
                }
                return ;
            }
            i = i + 1;
        }
        self.fields.push((name.to_owned(), value));
        proof {
            lemma_with_field_at(before, name@, value@, before.len() as int);
            assert(self@ =~= before.push((name@, value@)));
        }
    }

    pub fn record_i64(&mut self, name: &str, value: i64)
        ensures
            final(self)@ == with_field(old(self)@, name@, signed_decimal(value as int)),
    {
        self.record_text(name, signed_decimal_text(value));
    }

    pub fn record_u64(&mut self, name: &str, value: u64)
        ensures
            final(self)@ == with_field(old(self)@, name@, decimal(value as nat)),
    {
        self.record_text(name, decimal_text(value));
    }

    pub fn record_bool(&mut self, name: &str, value: bool)
        ensures
            final(self)@ == with_field(
                old(self)@,
                name@,
                if value {
                    "true"@
                } else {
                    "false"@
                },
            ),
    {
        let text: &str = if value {
            "true"
        } else {
            "false"
        };
        self.record_text(name, text.to_owned());
    }

    pub fn record_str(&mut self, name: &str, value: &str)
        ensures
            final(self)@ == with_field(old(self)@, name@, value@),
    {
        self.record_text(name, value.to_owned());
    }

    /// The message that is made of the fields.
    pub fn message(&self) -> (r: String)
        ensures
            r@ == fields_text(self@),
    {
        let mut out: String = String::new();
        let mut i: usize = 0;
        while i < self.fields.len()
            invariant
                i <= self.fields@.len(),
                out@ == fields_text(pairs(self.fields@).take(i as int)),
            decreases self.fields@.len() - i,
        {
            out.append(" ");
            out.append(self.fields[i].0.as_str());
            out.append(": ");
            out.append(self.fields[i].1.as_str());
            assert(pairs(self.fields@).take(i + 1).drop_last() =~= pairs(self.fields@).take(
                i as int,
            ));
            i = i + 1;
        }
        assert(pairs(self.fields@).take(self.fields@.len() as int) =~= pairs(self.fields@));
        out
    }
}

fn text_eq(a: &str, b: &str) -> (r: bool)
    ensures
        r == (a@ == b@),
{
    a.to_owned() == b.to_owned()
}

/// A traced event.
pub struct TracedEvent {
    pub level: TracingLevel,
    pub target: String,
    pub file: Option<String>,
    pub line: Option<u32>,
    pub module: Option<String>,
    pub fields: ToStringVisitor,
}

impl TracedEvent {
    /// What is logged of the event.
    pub open spec fn as_record(&self) -> RecordView {
        RecordView {
            level: log_level(self.level),
            target: self.target@,
            file: opt_text(self.file),
            line: self.line,
            module: opt_text(self.module),
            msg: fields_text(self.fields@),
        }
    }

    /// What is logged of the event.
    pub fn record(&self) -> (r: Record)
        ensures
            r@ == self.as_record(),
    {
        let level: Level = match self.level {
            TracingLevel::Error => Level::Error,
            TracingLevel::Warn => Level::Warn,
            TracingLevel::Info => Level::Info,
            TracingLevel::Debug => Level::Debug,
            TracingLevel::Trace => Level::Trace,
        };
        Record {
            level,
            target: self.target.clone(),
            file: match &self.file {
                Some(file) => Some(file.clone()),
                None => None,
            },
            line: self.line,
            module: match &self.module {
                Some(path) => Some(path.clone()),
                None => None,
            },
            msg: self.fields.message(),
        }
    }
}

/// The layer that hands traced events to the logger.
pub struct TuiTracingSubscriberLayer;

/// A layer that hands traced events to the logger.
pub fn tracing_subscriber_layer() -> (r: TuiTracingSubscriberLayer)
    ensures
        r == TuiTracingSubscriberLayer,
{
    TuiTracingSubscriberLayer
}

impl TuiTracingSubscriberLayer {
    /// Hand a traced event to the logger. The result says whether the events of the logger should
    /// be moved on now.
    pub fn on_event(&self, event: &TracedEvent, logger: &mut TuiLogger) -> (need_signal: bool)
        requires
            old(logger).wf(),
            old(logger).hot_log.events.total() < usize::MAX,
        ensures
            final(logger).wf(),
            logged(*old(logger), event.as_record(), *final(logger), need_signal),
    {
        let record: Record = event.record();
        logger.log(&record)
    }
}

/// Events are logged at the level of the same name as the one they were traced at, with their own
/// target, place and message.
pub proof fn law_event_becomes_record(event: TracedEvent)
    ensures
        forall|r: Record| #[trigger]
            call_ensures(TracedEvent::record, (&event,), r) ==> {
                &&& event.level == TracingLevel::Error <==> r.level == Level::Error
                &&& event.level == TracingLevel::Warn <==> r.level == Level::Warn
                &&& event.level == TracingLevel::Info <==> r.level == Level::Info
                &&& event.level == TracingLevel::Debug <==> r.level == Level::Debug
                &&& event.level == TracingLevel::Trace <==> r.level == Level::Trace
                &&& r.target@ == event.target@
                &&& r.file is Some <==> event.file is Some
                &&& event.file matches Some(file) ==> r.file.unwrap()@ == file@
                &&& r.line == event.line
                &&& r.module is Some <==> event.module is Some
                &&& event.module matches Some(module) ==> r.module.unwrap()@ == module@
                &&& r.msg@ == fields_text(event.fields@)
            },
{
}

/// Handing an event to the logger is logging its record.
pub proof fn law_layer_logs_record(layer: TuiTracingSubscriberLayer, event: TracedEvent)
    ensures
        forall|l: &mut TuiLogger, need_signal: bool| #[trigger]
            call_ensures(TuiTracingSubscriberLayer::on_event, (&layer, &event, l), need_signal)
                ==> {
                let known = l.inner.targets@.contains_key(event.target@);
                let filter = if known {
                    l.inner.targets@[event.target@]
                } else {
                    l.inner.default
                };
                let kept = filter.lets_through(log_level(event.level));
                let entry = final(l).hot_log.events@.last();
                &&& final(l).inner == l.inner
                &&& !kept ==> *final(l) == *l && !need_signal
                &&& kept ==> final(l).hot_log.events.total() == l.hot_log.events.total() + 1
                &&& kept ==> entry.msg@ == fields_text(event.fields@) && entry.target@
                    == event.target@ && entry.level == log_level(event.level)
            },
        forall|
            l: &mut TuiLogger,
            need_signal: bool,
            record: Record,
            k: &mut TuiLogger,
            signal: bool,
        |
            (#[trigger] call_ensures(
                TuiTracingSubscriberLayer::on_event,
                (&layer, &event, l),
                need_signal,
            ) && record@ == event.as_record() && *k == *l && #[trigger] call_ensures(
                TuiLogger::log,
                (k, &record),
                signal,
            )) ==> need_signal == signal && final(l).hot_log.events.total()
                == final(k).hot_log.events.total() && final(l).inner == final(k).inner,
{
}

/// A field that is recorded for the first time comes last; one that is recorded again keeps its
/// place and has the new value. The other fields stay as they are.
pub proof fn law_fields_keep_place(
    fields: Seq<(Seq<char>, Seq<char>)>,
    name: Seq<char>,
    value: Seq<char>,
    i: int,
)
    requires
        distinct_names(fields),
    ensures
        0 <= i < fields.len() && fields[i].0 == name ==> with_field(fields, name, value)
            == fields.update(i, (name, value)),
        (forall|k: int| 0 <= k < fields.len() ==> (#[trigger] fields[k]).0 != name) ==> with_field(
            fields,
            name,
            value,
        ) == fields.push((name, value)),
{
    if 0 <= i < fields.len() && fields[i].0 == name {
        assert forall|k: int| 0 <= k < i implies (#[trigger] fields[k]).0 != name by {
            assert(fields[k].0 != fields[i].0);
        }
        lemma_with_field_at(fields, name, value, i);
    }
    if forall|k: int| 0 <= k < fields.len() ==> (#[trigger] fields[k]).0 != name {
        lemma_with_field_at(fields, name, value, fields.len() as int);
    }
}

/// The message goes through the fields in their order, each as a space, its name, a colon, a space
/// and its value.
pub proof fn law_message_goes_through_fields(
    fields: Seq<(Seq<char>, Seq<char>)>,
    name: Seq<char>,
    value: Seq<char>,
)
    ensures
        fields_text(Seq::empty()) == Seq::<char>::empty(),
        fields_text(fields.push((name, value))) == fields_text(fields) + seq![' '] + name + seq![
            ':',
            ' ',
        ] + value,
        forall|v: ToStringVisitor, r: String|
            (v@ == fields && #[trigger] call_ensures(ToStringVisitor::message, (&v,), r)) ==> r@
                == fields_text(fields),
{
    reveal_strlit(" ");
    reveal_strlit(": ");
    assert(fields.push((name, value)).drop_last() =~= fields);
    assert(" "@ =~= seq![' ']);
    assert(": "@ =~= seq![':', ' ']);
}

/// Values are recorded as they are written: numbers in digits, truth values by name, text as it is.
pub proof fn law_values_are_recorded(name: &str, i: i64, u: u64, b: bool, text: &str)
    ensures
        forall|v: &mut ToStringVisitor| #[trigger]
            call_ensures(ToStringVisitor::record_i64, (v, name, i), ()) ==> final(v)@
                == with_field(v@, name@, signed_decimal(i as int)),
        forall|v: &mut ToStringVisitor| #[trigger]
            call_ensures(ToStringVisitor::record_u64, (v, name, u), ()) ==> final(v)@
                == with_field(v@, name@, decimal(u as nat)),
        forall|v: &mut ToStringVisitor| #[trigger]
            call_ensures(ToStringVisitor::record_bool, (v, name, b), ()) ==> (b ==> final(v)@
                == with_field(v@, name@, "true"@)) && (!b ==> final(v)@ == with_field(
                v@,
                name@,
                "false"@,
            )),
        forall|v: &mut ToStringVisitor| #[trigger]
            call_ensures(ToStringVisitor::record_str, (v, name, text), ()) ==> final(v)@
                == with_field(v@, name@, text@),
        forall|v: &mut ToStringVisitor, value: String| #[trigger]
            call_ensures(ToStringVisitor::record_text, (v, name, value), ()) ==> final(v)@
                == with_field(v@, name@, value@),
{
}

} // verus!
