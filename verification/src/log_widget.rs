//! The scrolling view of the logged events.

use crate::circular::latest;
use crate::circular::law_keeps_latest;
use crate::circular::CircularBuffer;
use crate::clock::format_timestamp;
use crate::clock::strftime;
use crate::clock::Timestamp;
use crate::config::byte_len;
use crate::level::Level;
use crate::level::LevelFilter;
use crate::logger::EventView;
use crate::logger::ExtLogRecord;
use crate::screen::all_drawn;
use crate::screen::area_of;
use crate::screen::backdrop;
use crate::screen::backdrop_fits;
use crate::screen::buffer_area;
use crate::screen::buffer_cells;
use crate::screen::can_draw_all;
use crate::screen::content_area;
use crate::screen::draw_all;
use crate::screen::draw_backdrop;
use crate::screen::draw_views;
use crate::screen::drawable;
use crate::screen::inner_of;
use crate::screen::is_neutral;
use crate::screen::is_whole;
use crate::screen::style_of;
use crate::screen::style_with;
use crate::screen::Draw;
use crate::screen::DrawView;
use crate::screen::Rect;
use crate::state::StateView;
use crate::state::TuiWidgetInnerState;
use crate::target_widget::letter_of;
use crate::target_widget::level_letter;
use crate::text::decimal;
use crate::text::decimal_text;
use crate::text::from_chars;
use crate::text::lines_of;
use crate::text::opt_text;
use crate::text::split_lines;
use crate::text::texts;
use crate::text::to_chars;
use ratatui::buffer::Buffer;
use ratatui::style::Style;
use ratatui::widgets::Block;
use vstd::prelude::*;

verus! {

/// By how many columns the lines of an event are indented that follow its first one.
pub const INDENT: u16 = 9;

/// How many of the events that lie after a page in the history are remembered while it is
/// collected.
pub const PAGE_OVERLAP: usize = 10;

/// How the level of an event is written.
#[derive(Debug, Clone, Copy, PartialEq, Hash, Structural)]
pub enum TuiLoggerLevelOutput {
    Abbreviated,
    Long,
}

/// The TuiLoggerWidget shows the logging messages in an endless scrolling view.
/// It is controlled by a TuiWidgetState for selected events.
pub struct TuiLoggerWidget<'b> {
    pub block: Option<Block<'b>>,
    /// Base style of the widget
    pub style: Style,
    /// Level based style
    pub style_error: Option<Style>,
    pub style_warn: Option<Style>,
    pub style_debug: Option<Style>,
    pub style_trace: Option<Style>,
    pub style_info: Option<Style>,
    pub format_separator: char,
    pub format_timestamp: Option<String>,
    pub format_output_level: Option<TuiLoggerLevelOutput>,
    pub format_output_target: bool,
    pub format_output_file: bool,
    pub format_output_line: bool,
}

/// The name of a level, filled up to five characters.
pub open spec fn level_name(level: Level) -> Seq<char> {
    match level {
        Level::Error => "ERROR"@,
        Level::Warn => "WARN "@,
        Level::Info => "INFO "@,
        Level::Debug => "DEBUG"@,
        Level::Trace => "TRACE"@,
    }
}

/// The name of a level, filled up to five characters.
pub fn name_of(level: Level) -> (r: &'static str)
    ensures
        r@ == level_name(level),
{
    match level {
        Level::Error => "ERROR",
        Level::Warn => "WARN ",
        Level::Info => "INFO ",
        Level::Debug => "DEBUG",
        Level::Trace => "TRACE",
    }
}

/// A line of text to show, before it is wrapped or after.
pub struct LogLine {
    pub style: Option<Style>,
    /// The line is indented, as one that follows the first line of an event.
    pub indented: bool,
    pub text: String,
}

/// What a `LogLine` says.
pub struct LineView {
    pub style: Option<Style>,
    pub indented: bool,
    pub text: Seq<char>,
}

impl View for LogLine {
    type V = LineView;

    open spec fn view(&self) -> LineView {
        LineView { style: self.style, indented: self.indented, text: self.text@ }
    }
}

/// What a sequence of lines says.
pub open spec fn line_views(lines: Seq<LogLine>) -> Seq<LineView> {
    lines.map_values(|l: LogLine| l@)
}

/// A page of the log: its lines, the last line first, and where the pages next to it end.
pub struct LogPage {
    pub lines: Vec<LogLine>,
    pub next_page: Option<Timestamp>,
    pub prev_page: Option<Timestamp>,
}

/// What is known of a page while the events are gone through, the newest first.
#[verifier::ext_equal]
pub struct PageView {
    /// The times of the last events that lie after the page, the newest first.
    pub skipped: Seq<Timestamp>,
    /// Where the page after this one ends.
    pub next_page: Option<Timestamp>,
    /// The lines of the page, the last line first.
    pub lines: Seq<LineView>,
    /// Where the page before this one ends.
    pub prev_page: Option<Timestamp>,
    /// The page has as many lines as it has room for.
    pub full: bool,
}

/// A page of which nothing is known.
pub open spec fn empty_page() -> PageView {
    PageView {
        skipped: Seq::empty(),
        next_page: None,
        lines: Seq::empty(),
        prev_page: None,
        full: false,
    }
}

/// The events of a buffer, the newest first.
pub open spec fn newest_first(events: Seq<ExtLogRecord>) -> Seq<EventView> {
    Seq::new(events.len(), |i: int| events[events.len() - 1 - i]@)
}

/// Whether an event passes the filters: the level displayed of its target, and the focus on the
/// selected target.
pub open spec fn passes(s: StateView, e: EventView) -> bool {
    let filter = match s.levels.get(e.target) {
        Some(level) => Some(level),
        None => s.display_level,
    };
    &&& filter matches Some(level) ==> level.lets_through(e.level)
    &&& s.focus_selected && s.selected_target is Some ==> s.selected_target == Some(e.target)
}

/// Whether an event lies after the page that is shown of the history.
pub open spec fn is_after_page(s: StateView, e: EventView) -> bool {
    s.timestamp_bottom matches Some(bottom) && bottom.precedes(e.timestamp)
}

/// The lines of an event, the last one first. The prefix stands before the first line of the
/// message, and the other lines are indented.
pub open spec fn event_lines(
    prefix: Seq<char>,
    style: Option<Style>,
    lines: Seq<Seq<char>>,
) -> Seq<LineView> {
    Seq::new(
        lines.len(),
        |k: int|
            if k < lines.len() - 1 {
                LineView { style, indented: true, text: lines[lines.len() - 1 - k] }
            } else {
                LineView { style, indented: false, text: prefix + lines[0] }
            },
    )
}

/// A field of an event, followed by the separator, or nothing if the field is left out.
pub open spec fn field(present: bool, text: Seq<char>, separator: char) -> Seq<char> {
    if present {
        text.push(separator)
    } else {
        Seq::empty()
    }
}

fn push_field(out: &mut String, present: bool, text: &str, separator: char)
    ensures
        final(out)@ == old(out)@ + field(present, text@, separator),
{
    if present {
        out.append(text);
        out.push(separator);
        assert(out@ =~= old(out)@ + text@.push(separator));
    } else {
        assert(out@ =~= old(out)@ + Seq::<char>::empty());
    }
}

impl<'b> TuiLoggerWidget<'b> {
    /// The style for events of a level, if they have one of their own.
    pub open spec fn level_style(&self, level: Level) -> Option<Style> {
        match level {
            Level::Error => self.style_error,
            Level::Warn => self.style_warn,
            Level::Info => self.style_info,
            Level::Debug => self.style_debug,
            Level::Trace => self.style_trace,
        }
    }

    /// What stands before the message of an event: time, level, target, file and line, as far
    /// as they are asked for. The place in the code is left out at level `Info`.
    pub open spec fn prefix(&self, e: EventView, time: Option<Seq<char>>) -> Seq<char> {
        let sep = self.format_separator;
        let located = e.level != Level::Info;
        let level = match self.format_output_level {
            Some(TuiLoggerLevelOutput::Abbreviated) => level_letter(e.level),
            _ => level_name(e.level),
        };
        field(time is Some, time.unwrap_or(Seq::empty()), sep) + field(
            self.format_output_level is Some,
            level,
            sep,
        ) + field(self.format_output_target, e.target, sep) + field(
            located && self.format_output_file,
            e.file,
            sep,
        ) + field(located && self.format_output_line, decimal(e.line as nat), sep)
    }

    /// Whether the time of an event can be written in the format that is asked for.
    pub open spec fn can_format(&self, e: EventView) -> bool {
        match self.format_timestamp {
            Some(fmt) => strftime(
                e.timestamp.secs,
                e.timestamp.nanos,
                e.timestamp.offset,
                fmt@,
            ) is Some,
            None => true,
        }
    }

    /// The time of an event as it is written before the message, if it is asked for.
    pub open spec fn time_text(&self, e: EventView) -> Option<Seq<char>> {
        match self.format_timestamp {
            Some(fmt) => strftime(e.timestamp.secs, e.timestamp.nanos, e.timestamp.offset, fmt@),
            None => None,
        }
    }

    /// What stands before the message of an event, given its time as text, and the style of the
    /// event.
    pub fn event_prefix(&self, evt: &ExtLogRecord, time: Option<&str>) -> (r: (
        String,
        Option<Style>,
    ))
        ensures
            time matches Some(t) ==> r.0@ == self.prefix(evt@, Some(t@)),
            time is None ==> r.0@ == self.prefix(evt@, None),
            r.1 == self.level_style(evt.level),
    {
        let mut output: String = String::new();
        let (col_style, with_loc): (Option<Style>, bool) = match evt.level {
            Level::Error => (self.style_error, true),
            Level::Warn => (self.style_warn, true),
            Level::Info => (self.style_info, false),
            Level::Debug => (self.style_debug, true),
            Level::Trace => (self.style_trace, true),
        };
        let time_text: &str = match time {
            Some(time) => time,
            None => "",
        };
        let sep: char = self.format_separator;
        push_field(&mut output, time.is_some(), time_text, sep);
        match self.format_output_level {
            None => {
                push_field(&mut output, false, name_of(evt.level), sep);
            },
            Some(TuiLoggerLevelOutput::Abbreviated) => {
                push_field(&mut output, true, letter_of(evt.level), sep);
            },
            Some(TuiLoggerLevelOutput::Long) => {
                push_field(&mut output, true, name_of(evt.level), sep);
            },
        }
        push_field(&mut output, self.format_output_target, evt.target.as_str(), sep);
        push_field(&mut output, with_loc && self.format_output_file, evt.file.as_str(), sep);
        let line: String = decimal_text(evt.line as u64);
        push_field(&mut output, with_loc && self.format_output_line, line.as_str(), sep);
        proof {
            match time {
                Some(t) => {
                    assert(output@ =~= self.prefix(evt@, Some(t@)));
                },
                None => {
                    assert(output@ =~= self.prefix(evt@, None));
                },
            }
        }
        (output, col_style)
    }

    /// What stands before the message of an event, and the style of the event.
    pub fn format_event(&self, evt: &ExtLogRecord) -> (r: (String, Option<Style>))
        requires
            self.can_format(evt@),
        ensures
            r.0@ == self.prefix(evt@, self.time_text(evt@)),
            r.1 == self.level_style(evt.level),
    {
        match &self.format_timestamp {
            Some(fmt) => {
                let time: Option<String> = format_timestamp(evt.timestamp, fmt.as_str());
                match &time {
                    Some(time) => self.event_prefix(evt, Some(time.as_str())),
                    None => self.event_prefix(evt, None),
                }
            },
            None => self.event_prefix(evt, None),
        }
    }

    /// What `format_event` returns, or nothing if the time of the event cannot be written in the
    /// format that is asked for.
    pub fn try_format_event(&self, evt: &ExtLogRecord) -> (r: Option<(String, Option<Style>)>)
        ensures
            r is Some <==> self.can_format(evt@),
            r matches Some((text, style)) ==> text@ == self.prefix(evt@, self.time_text(evt@))
                && style == self.level_style(evt.level),
    {
        if let Some(fmt) = &self.format_timestamp {
            if format_timestamp(evt.timestamp, fmt.as_str()).is_none() {
                return None;
            }
        }
        Some(self.format_event(evt))
    }

    /// Whether an event can be shown: its time can be written, and its message has a line.
    pub open spec fn can_show(&self, e: EventView) -> bool {
        self.can_format(e) && lines_of(e.msg).len() > 0
    }

    /// The page after one more event, older than those before, or nothing if the event cannot be
    /// shown.
    pub open spec fn page_step(
        &self,
        s: StateView,
        height: nat,
        page: PageView,
        e: EventView,
    ) -> Option<PageView> {
        if page.full || !passes(s, e) {
            Some(page)
        } else if is_after_page(s, e) {
            Some(
                PageView {
                    skipped: latest(page.skipped.push(e.timestamp), PAGE_OVERLAP as nat),
                    ..page
                },
            )
        } else if !self.can_show(e) {
            None
        } else {
            let lines = page.lines + event_lines(
                self.prefix(e, self.time_text(e)),
                self.level_style(e.level),
                lines_of(e.msg),
            );
            let full = lines.len() == height;
            Some(
                PageView {
                    skipped: Seq::empty(),
                    next_page: if page.skipped.len() > 0 {
                        Some(page.skipped[0])
                    } else {
                        page.next_page
                    },
                    lines,
                    prev_page: if page.prev_page is None && !full && lines.len() >= height / 2 {
                        Some(e.timestamp)
                    } else {
                        page.prev_page
                    },
                    full,
                },
            )
        }
    }

    /// The page that is made of events, the newest first, or nothing if one of those on the page
    /// cannot be shown.
    pub open spec fn page_of(&self, s: StateView, height: nat, events: Seq<EventView>) -> Option<
        PageView,
    >
        decreases events.len(),
    {
        if events.len() == 0 {
            Some(empty_page())
        } else {
            match self.page_of(s, height, events.drop_last()) {
                Some(page) => self.page_step(s, height, page, events.last()),
                None => None,
            }
        }
    }

    /// Once a page is full, or cannot be shown, older events change nothing.
    proof fn lemma_page_settled(&self, s: StateView, height: nat, events: Seq<EventView>, n: nat)
        requires
            n <= events.len(),
            self.page_of(s, height, events.take(n as int)) matches Some(page) ==> page.full,
        ensures
            self.page_of(s, height, events) == self.page_of(s, height, events.take(n as int)),
        decreases events.len() - n,
    {
        if n < events.len() {
            assert(events.take(n as int + 1).drop_last() =~= events.take(n as int));
            self.lemma_page_settled(s, height, events, n + 1);
        } else {
            assert(events.take(n as int) =~= events);
        }
    }

    fn event_passes(&self, state: &TuiWidgetInnerState, evt: &ExtLogRecord) -> (r: bool)
        requires
            state.wf(),
        ensures
            r == passes(state@, evt@),
    {
        let filter: Option<LevelFilter> = match state.config.get(evt.target.as_str()) {
            Some(level) => Some(level),
            None => state.config.default_display_level(),
        };
        if let Some(level) = filter {
            if !level.allows(evt.level) {
                return false;
            }
        }
        if state.focus_selected {
            if let Some(target) = &state.opt_selected_target {
                return *target == evt.target;
            }
        }
        true
    }

    /// Add the lines of an event to a page, the last one first.
    fn push_event(lines: &mut Vec<LogLine>, prefix: String, style: Option<Style>, msg: Vec<String>)
        requires
            msg@.len() > 0,
        ensures
            line_views(final(lines)@) == line_views(old(lines)@) + event_lines(
                prefix@,
                style,
                texts(msg@),
            ),
    {
        let ghost before = line_views(lines@);
        let ghost all = texts(msg@);
        let mut msg: Vec<String> = msg;
        let ghost n = msg@.len();
        while msg.len() > 1
            invariant
                1 <= msg@.len() <= n,
                n == all.len(),
                texts(msg@) == all.take(msg@.len() as int),
                line_views(lines@).len() == before.len() + n - msg@.len(),
                forall|k: int|
                    0 <= k < before.len() ==> #[trigger] line_views(lines@)[k] == before[k],
                forall|k: int|
                    before.len() <= k < before.len() + n - msg@.len()
                        ==> #[trigger] line_views(lines@)[k] == (LineView {
                        style,
                        indented: true,
                        text: all[n - 1 - (k - before.len())],
                    }),
            decreases msg@.len(),
        {
            let ghost held = texts(msg@);
            let ghost earlier = line_views(lines@);
            let last: Option<String> = msg.pop();
            if let Some(text) = last {
                assert(held[msg@.len() as int] == text@);
                assert(texts(msg@) =~= all.take(msg@.len() as int));
                lines.push(LogLine { style, indented: true, text });
                assert(line_views(lines@) =~= earlier.push(lines@.last()@));
            }
        }
        let ghost held = texts(msg@);
        let ghost earlier = line_views(lines@);
        let mut output: String = prefix;
        if let Some(first) = msg.pop() {
            assert(held[0] == first@);
            output.append(first.as_str());
        }
        lines.push(LogLine { style, indented: false, text: output });
        proof {
            assert(line_views(lines@) =~= earlier.push(lines@.last()@));
            assert(line_views(lines@) =~= before + event_lines(prefix@, style, all));
        }
    }

    /// Collect the lines of a page of the given height, and find where the pages next to it end.
    /// There is no result if an event on the page cannot be shown.
    pub fn collect(
        &self,
        state: &TuiWidgetInnerState,
        events: &CircularBuffer<ExtLogRecord>,
        height: usize,
    ) -> (r: Option<LogPage>)
        requires
            state.wf(),
            events.wf(),
        ensures
            match self.page_of(state@, height as nat, newest_first(events@)) {
                Some(page) => r matches Some(p) && line_views(p.lines@) == page.lines
                    && p.next_page == page.next_page && p.prev_page == page.prev_page,
                None => r is None,
            },
    {
        let ghost all = newest_first(events@);
        let ghost s = state@;
        let newest: Vec<&ExtLogRecord> = events.rev_iter();
        let mut lines: Vec<LogLine> = Vec::new();
        let mut next_page: Option<Timestamp> = None;
        let mut prev_page: Option<Timestamp> = None;
        let mut circular: CircularBuffer<Timestamp> = CircularBuffer::new(PAGE_OVERLAP);
        let mut i: usize = 0;
        assert(line_views(lines@) =~= Seq::<LineView>::empty());
        while i < newest.len()
            invariant
                state.wf(),
                s == state@,
                all == newest_first(events@),
                newest@.len() == all.len(),
                forall|k: int| 0 <= k < newest@.len() ==> (*#[trigger] newest@[k])@ == all[k],
                i <= newest@.len(),
                circular.wf(),
                circular.depth() == PAGE_OVERLAP,
                circular.total() <= i,
                self.page_of(s, height as nat, all.take(i as int)) == Some(
                    PageView {
                        skipped: circular@,
                        next_page,
                        lines: line_views(lines@),
                        prev_page,
                        full: false,
                    },
                ),
            decreases newest@.len() - i,
        {
            let evt: &ExtLogRecord = newest[i];
            let ghost e = evt@;
            assert(all.take(i + 1).drop_last() =~= all.take(i as int));
            assert(newest.len() == newest@.len());
            i = i + 1;
            if !self.event_passes(state, evt) {
                continue;
            }
            // Here all filters have been applied,
            // So check, if user is paging through history
            if let Some(bottom) = state.opt_timestamp_bottom {
                if bottom.is_before(&evt.timestamp) {
                    circular.push(evt.timestamp);
                    continue;
                }
            }
            let formatted: Option<(String, Option<Style>)> = self.try_format_event(evt);
            let msg: Vec<String> = split_lines(evt.msg.as_str());
            assert(texts(msg@).len() == msg@.len());
            if formatted.is_none() || msg.len() == 0 {
                proof {
                    self.lemma_page_settled(s, height as nat, all, i as nat);
                }
                return None;
            }
            if !circular.is_empty() {
                let skipped: Vec<Timestamp> = circular.take();
                next_page = Some(skipped[0]);
            }
            assert(circular@ =~= Seq::<Timestamp>::empty());
            if let Some((output, col_style)) = formatted {
                Self::push_event(&mut lines, output, col_style, msg);
            }
            if lines.len() == height {
                proof {
                    self.lemma_page_settled(s, height as nat, all, i as nat);
                }
                return Some(LogPage { lines, next_page, prev_page });
            }
            if prev_page.is_none() && lines.len() >= height / 2 {
                prev_page = Some(evt.timestamp);
            }
        }
        assert(all.take(all.len() as int) =~= all);
        Some(LogPage { lines, next_page, prev_page })
    }

    /// The rows of what is left of a line after its first row: full rows of the given width, and
    /// the rest.
    pub open spec fn further_rows(style: Option<Style>, text: Seq<char>, width: nat) -> Seq<
        LineView,
    >
        decreases text.len(),
    {
        if width > 0 && text.len() > width {
            seq![LineView { style, indented: true, text: text.take(width as int) }]
                + Self::further_rows(style, text.skip(width as int), width)
        } else {
            seq![LineView { style, indented: true, text }]
        }
    }

    /// The rows of a line that is wrapped at a width. All rows but the first are indented and
    /// accordingly shorter.
    pub open spec fn rows_of(line: LineView, width: nat) -> Seq<LineView> {
        if line.text.len() > width {
            seq![LineView { text: line.text.take(width as int), ..line }] + Self::further_rows(
                line.style,
                line.text.skip(width as int),
                (width - INDENT) as nat,
            )
        } else {
            seq![line]
        }
    }

    /// The rows of lines, of which the last stands at the top.
    pub open spec fn all_rows(lines: Seq<LineView>, width: nat) -> Seq<LineView>
        decreases lines.len(),
    {
        if lines.len() == 0 {
            Seq::empty()
        } else {
            Self::rows_of(lines.last(), width) + Self::all_rows(lines.drop_last(), width)
        }
    }

    /// Add a row below the others, of which only the last ones are kept. The result is false, and
    /// nothing is added, if the rows can no longer be counted.
    fn push_row(rows: &mut CircularBuffer<LogLine>, row: LogLine, Ghost(done): Ghost<Seq<LineView>>) -> (r: bool)
        requires
            old(rows).wf(),
            old(rows).depth() > 0,
            old(rows).total() == done.len(),
            line_views(old(rows)@) == latest(done, old(rows).depth()),
        ensures
            final(rows).wf(),
            final(rows).depth() == old(rows).depth(),
            r == (done.len() < usize::MAX),
            r ==> final(rows).total() == done.len() + 1,
            r ==> line_views(final(rows)@) == latest(done.push(row@), final(rows).depth()),
    {
        if rows.total_elements() == usize::MAX {
            return false;
        }
        let ghost before = rows@;
        let ghost depth = rows.depth();
        rows.push(row);
        proof {
            assert(line_views(before.push(row)) =~= line_views(before).push(row@));
            assert(line_views(latest(before.push(row), depth)) =~= latest(
                line_views(before.push(row)),
                depth,
            ));
            law_keeps_latest(done, row@, depth);
        }
        true
    }

    /// Wrap lines, of which the last stands at the top, at a width, and keep the last rows. There
    /// is no result if there are more rows than can be counted.
    pub fn wrap(page: Vec<LogLine>, width: usize, height: usize) -> (r: Option<Vec<LogLine>>)
        requires
            width > INDENT,
            height > 0,
        ensures
            r is Some <==> Self::all_rows(line_views(page@), width as nat).len() <= usize::MAX,
            r matches Some(rows) ==> line_views(rows@) == latest(
                Self::all_rows(line_views(page@), width as nat),
                height as nat,
            ),
    {
        let ghost all = Self::all_rows(line_views(page@), width as nat);
        let rem_width: usize = width - INDENT as usize;
        let mut lines: Vec<LogLine> = page;
        let mut rows: CircularBuffer<LogLine> = CircularBuffer::new(height);
        let ghost mut done: Seq<LineView> = Seq::empty();
        proof {
            assert(line_views(rows@) =~= Seq::<LineView>::empty());
            assert(done + all =~= all);
        }
        while lines.len() > 0
            invariant
                width > INDENT,
                height > 0,
                rem_width == width - INDENT,
                all == Self::all_rows(line_views(page@), width as nat),
                rows.wf(),
                rows.depth() == height,
                rows.total() == done.len(),
                line_views(rows@) == latest(done, height as nat),
                done + Self::all_rows(line_views(lines@), width as nat) == all,
            decreases lines@.len(),
        {
            let ghost held = line_views(lines@);
            let ghost start = done;
            let ghost rest = Self::all_rows(held.drop_last(), width as nat);
            let popped: Option<LogLine> = lines.pop();
            if let Some(line) = popped {
                let ghost first = line@;
                assert(held.last() == first);
                assert(line_views(lines@) =~= held.drop_last());
                let ghost own = Self::rows_of(first, width as nat);
                assert(all == start + (own + rest));
                assert(start + (own + rest) =~= (start + own) + rest);
                assert(all.len() == start.len() + own.len() + rest.len());
                assert(own.len() > 0);
                let chars: Vec<char> = to_chars(line.text.as_str());
                if chars.len() > width {
                    let text: String = from_chars(&chars, 0, width);
                    assert(text@ =~= first.text.take(width as int));
                    let row = LogLine { style: line.style, indented: line.indented, text };
                    let ghost view = row@;
                    if !Self::push_row(&mut rows, row, Ghost(done)) {
                        return None;
                    }
                    proof {
                        done = done.push(view);
                    }
                    let mut from: usize = width;
                    let ghost tail = Self::further_rows(
                        first.style,
                        first.text.skip(width as int),
                        rem_width as nat,
                    );
                    assert(start + own =~= done + tail);
                    while chars.len() - from > rem_width
                        invariant
                            width > INDENT,
                            height > 0,
                            rem_width == width - INDENT,
                            all == Self::all_rows(line_views(page@), width as nat),
                            rows.wf(),
                            rows.depth() == height,
                            rows.total() == done.len(),
                            line_views(rows@) == latest(done, height as nat),
                            chars@ == first.text,
                            first.style == line.style,
                            from <= chars@.len(),
                            start + own == done + Self::further_rows(
                                first.style,
                                first.text.skip(from as int),
                                rem_width as nat,
                            ),
                            (start + own) + rest == all,
                        decreases chars@.len() - from,
                    {
                        let ghost left = first.text.skip(from as int);
                        let text: String = from_chars(&chars, from, from + rem_width);
                        assert(text@ =~= left.take(rem_width as int));
                        let row = LogLine { style: line.style, indented: true, text };
                        let ghost view = row@;
                        let ghost before = done;
                        if !Self::push_row(&mut rows, row, Ghost(done)) {
                            return None;
                        }
                        proof {
                            done = done.push(view);
                        }
                        from = from + rem_width;
                        proof {
                            assert(left.skip(rem_width as int) =~= first.text.skip(from as int));
                            assert(before + Self::further_rows(first.style, left, rem_width as nat)
                                =~= done + Self::further_rows(
                                first.style,
                                first.text.skip(from as int),
                                rem_width as nat,
                            ));
                        }
                    }
                    let text: String = from_chars(&chars, from, chars.len());
                    assert(text@ =~= first.text.skip(from as int));
                    let row = LogLine { style: line.style, indented: true, text };
                    let ghost view = row@;
                    if !Self::push_row(&mut rows, row, Ghost(done)) {
                        return None;
                    }
                    proof {
                        assert(start + own =~= done.push(view));
                        done = done.push(view);
                    }
                } else {
                    if !Self::push_row(&mut rows, line, Ghost(done)) {
                        return None;
                    }
                    proof {
                        assert(start + own =~= done.push(first));
                        done = done.push(first);
                    }
                }
            }
        }
        assert(done =~= all);
        proof {
            rows.lemma_len();
        }
        Some(rows.take())
    }

    /// Whether an area is too small for the log.
    pub open spec fn too_small(area: Rect) -> bool {
        area.width < INDENT + 4 || area.height < 1
    }

    /// The column in which a row starts.
    pub open spec fn row_x(row: LineView, area: Rect) -> int {
        if row.indented {
            area.x + INDENT
        } else {
            area.x as int
        }
    }

    /// Where the i-th of `n` rows is drawn: from the top, or, in the history, down to the bottom.
    pub open spec fn row_y(i: int, n: nat, in_history: bool, area: Rect) -> int {
        if in_history {
            area.y + i + (area.height - n)
        } else {
            area.y + i
        }
    }

    /// Whether the places of the rows of a page are coordinates.
    pub open spec fn in_range(rows: Seq<LineView>, in_history: bool, area: Rect) -> bool {
        forall|i: int|
            0 <= i < rows.len() ==> Self::row_x(#[trigger] rows[i], area) <= u16::MAX
                && Self::row_y(i, rows.len(), in_history, area) <= u16::MAX
    }

    /// How the rows of a page are drawn in an area.
    pub open spec fn placed(&self, rows: Seq<LineView>, in_history: bool, area: Rect) -> Seq<
        DrawView,
    > {
        Seq::new(
            rows.len(),
            |i: int|
                DrawView::Text {
                    x: Self::row_x(rows[i], area) as u16,
                    y: Self::row_y(i, rows.len(), in_history, area) as u16,
                    text: rows[i].text,
                    max_width: byte_len(rows[i].text),
                    style: match rows[i].style {
                        Some(style) => style,
                        None => self.style,
                    },
                },
        )
    }

    /// What is drawn of the log in an area, or nothing if an event on the page cannot be shown,
    /// the rows cannot be counted, or one of them has no coordinates.
    pub open spec fn listing(
        &self,
        s: StateView,
        events: Seq<ExtLogRecord>,
        area: Rect,
    ) -> Option<Seq<DrawView>> {
        if Self::too_small(area) {
            Some(Seq::empty())
        } else {
            match self.page_of(s, area.height as nat, newest_first(events)) {
                Some(page) => {
                    let rows = Self::all_rows(page.lines, area.width as nat);
                    let last = latest(rows, area.height as nat);
                    let in_history = s.timestamp_bottom is Some;
                    if rows.len() <= usize::MAX && Self::in_range(last, in_history, area) {
                        Some(self.placed(last, in_history, area))
                    } else {
                        None
                    }
                },
                None => None,
            }
        }
    }

    /// The state after the log was laid out in an area: the ends of the pages next to the one
    /// shown are known. If there is no page before it, this page is also that one.
    pub open spec fn laid_out(
        &self,
        s: StateView,
        events: Seq<ExtLogRecord>,
        area: Rect,
    ) -> StateView {
        if Self::too_small(area) || self.listing(s, events, area) is None {
            s
        } else {
            let page = self.page_of(s, area.height as nat, newest_first(events)).unwrap();
            StateView {
                timestamp_next_page: page.next_page,
                timestamp_prev_page: match page.prev_page {
                    Some(timestamp) => Some(timestamp),
                    None => s.timestamp_bottom,
                },
                ..s
            }
        }
    }

    fn place(&self, rows: Vec<LogLine>, in_history: bool, area: Rect) -> (r: Option<Vec<Draw>>)
        requires
            rows@.len() <= area.height,
        ensures
            r is Some <==> Self::in_range(line_views(rows@), in_history, area),
            r matches Some(draws) ==> draw_views(draws@) == self.placed(
                line_views(rows@),
                in_history,
                area,
            ),
    {
        let ghost views = line_views(rows@);
        let offset: u16 = if in_history {
            area.height - rows.len() as u16
        } else {
            0
        };
        let mut draws: Vec<Draw> = Vec::new();
        let mut i: usize = 0;
        while i < rows.len()
            invariant
                rows@.len() + offset <= area.height,
                in_history ==> offset == area.height - rows@.len(),
                !in_history ==> offset == 0,
                views == line_views(rows@),
                i <= rows@.len(),
                forall|k: int|
                    0 <= k < i ==> Self::row_x(#[trigger] views[k], area) <= u16::MAX
                        && Self::row_y(k, views.len(), in_history, area) <= u16::MAX,
                draw_views(draws@) == self.placed(views, in_history, area).take(i as int),
            decreases rows@.len() - i,
        {
            let row: &LogLine = &rows[i];
            assert(views[i as int] == row@);
            let left: u16 = if row.indented {
                INDENT
            } else {
                0
            };
            let down: u16 = i as u16 + offset;
            if left > u16::MAX - area.x || down > u16::MAX - area.y {
                return None;
            }
            let style: Style = match row.style {
                Some(style) => style,
                None => self.style,
            };
            let draw = Draw::Text {
                x: area.x + left,
                y: area.y + down,
                text: row.text.clone(),
                max_width: row.text.as_str().len(),
                style,
            };
            assert(draw@ == self.placed(views, in_history, area)[i as int]);
            let ghost before = draws@;
            let ghost view = draw@;
            draws.push(draw);
            assert(draw_views(draws@) =~= draw_views(before).push(view));
            assert(draw_views(draws@) =~= self.placed(views, in_history, area).take(i + 1));
            i = i + 1;
        }
        assert(self.placed(views, in_history, area).take(views.len() as int) =~= self.placed(
            views,
            in_history,
            area,
        ));
        Some(draws)
    }

    /// Lay the log out in an area: find the page and those next to it, and say what is to be
    /// drawn. There is no result, and the state is left as it was, if an event on the page cannot
    /// be shown, the rows cannot be counted, or one of them has no coordinates.
    pub fn layout(
        &self,
        state: &mut TuiWidgetInnerState,
        events: &CircularBuffer<ExtLogRecord>,
        area: Rect,
    ) -> (r: Option<Vec<Draw>>)
        requires
            old(state).wf(),
            events.wf(),
        ensures
            final(state).wf(),
            final(state)@ == self.laid_out(old(state)@, events@, area),
            match self.listing(old(state)@, events@, area) {
                Some(listing) => r matches Some(draws) && draw_views(draws@) == listing,
                None => r is None,
            },
    {
        if area.width < INDENT + 4 || area.height < 1 {
            let draws: Vec<Draw> = Vec::new();
            assert(draw_views(draws@) =~= Seq::<DrawView>::empty());
            return Some(draws);
        }
        let page: LogPage = match self.collect(state, events, area.height as usize) {
            Some(page) => page,
            None => {
                return None;
            },
        };
        let rows: Vec<LogLine> = match Self::wrap(
            page.lines,
            area.width as usize,
            area.height as usize,
        ) {
            Some(rows) => rows,
            None => {
                return None;
            },
        };
        assert(line_views(rows@).len() == rows@.len());
        let in_history: bool = state.opt_timestamp_bottom.is_some();
        let draws: Vec<Draw> = match self.place(rows, in_history, area) {
            Some(draws) => draws,
            None => {
                return None;
            },
        };
        state.opt_timestamp_next_page = page.next_page;
        state.opt_timestamp_prev_page = match page.prev_page {
            Some(timestamp) => Some(timestamp),
            None => state.opt_timestamp_bottom,
        };
        Some(draws)
    }

    /// Draw the widget in an area of a buffer. The result is false, and the buffer is left as it
    /// was, if the page cannot be laid out or a row of it would lie outside of the buffer.
    pub fn render(
        self,
        state: &mut TuiWidgetInnerState,
        events: &CircularBuffer<ExtLogRecord>,
        area: Rect,
        buf: &mut Buffer,
    ) -> (r: bool)
        requires
            old(state).wf(),
            events.wf(),
            backdrop_fits(self.block, buffer_area(*old(buf)), area),
            is_whole(*old(buf)),
        ensures
            final(state).wf(),
            is_whole(*final(buf)),
            buffer_area(*final(buf)) == buffer_area(*old(buf)),
            area.wf() ==> content_area(self.block, area).wf(),
            ({
                let list_area = content_area(self.block, area);
                let whole = buffer_area(*old(buf));
                let cells = buffer_cells(*old(buf));
                let listing = self.listing(old(state)@, events@, list_area);
                &&& final(state)@ == self.laid_out(old(state)@, events@, list_area)
                &&& r <==> listing is Some && can_draw_all(whole, listing.unwrap())
                &&& r ==> buffer_cells(*final(buf)) == all_drawn(
                    whole,
                    backdrop(whole, cells, area, self.style, self.block),
                    listing.unwrap(),
                )
                &&& !r ==> *final(buf) == *old(buf)
            }),
    {
        let list_area: Rect = inner_of(&self.block, area);
        match self.layout(state, events, list_area) {
            Some(draws) => {
                if !drawable(area_of(buf), &draws) {
                    return false;
                }
                draw_backdrop(buf, area, self.style, self.block);
                draw_all(buf, &draws);
                true
            },
            None => false,
        }
    }
}

impl<'b> TuiLoggerWidget<'b> {
    pub fn block(self, block: Block<'b>) -> (r: Self)
        ensures
            r == (TuiLoggerWidget { block: Some(block), ..self }),
    {
        TuiLoggerWidget { block: Some(block), ..self }
    }

    pub(crate) fn opt_style(self, style: Option<Style>) -> (r: Self)
        ensures
            style matches Some(value) ==> r == (TuiLoggerWidget { style: value, ..self }),
            style is None ==> r == self,
    {
        match style {
            Some(value) => TuiLoggerWidget { style: value, ..self },
            None => self,
        }
    }

    pub(crate) fn opt_style_error(self, style: Option<Style>) -> (r: Self)
        ensures
            style matches Some(value) ==> r == (TuiLoggerWidget { style_error: Some(value), ..self }),
            style is None ==> r == self,
    {
        match style {
            Some(value) => TuiLoggerWidget { style_error: Some(value), ..self },
            None => self,
        }
    }

    pub(crate) fn opt_style_warn(self, style: Option<Style>) -> (r: Self)
        ensures
            style matches Some(value) ==> r == (TuiLoggerWidget { style_warn: Some(value), ..self }),
            style is None ==> r == self,
    {
        match style {
            Some(value) => TuiLoggerWidget { style_warn: Some(value), ..self },
            None => self,
        }
    }

    pub(crate) fn opt_style_info(self, style: Option<Style>) -> (r: Self)
        ensures
            style matches Some(value) ==> r == (TuiLoggerWidget { style_info: Some(value), ..self }),
            style is None ==> r == self,
    {
        match style {
            Some(value) => TuiLoggerWidget { style_info: Some(value), ..self },
            None => self,
        }
    }

    pub(crate) fn opt_style_trace(self, style: Option<Style>) -> (r: Self)
        ensures
            style matches Some(value) ==> r == (TuiLoggerWidget { style_trace: Some(value), ..self }),
            style is None ==> r == self,
    {
        match style {
            Some(value) => TuiLoggerWidget { style_trace: Some(value), ..self },
            None => self,
        }
    }

    pub(crate) fn opt_style_debug(self, style: Option<Style>) -> (r: Self)
        ensures
            style matches Some(value) ==> r == (TuiLoggerWidget { style_debug: Some(value), ..self }),
            style is None ==> r == self,
    {
        match style {
            Some(value) => TuiLoggerWidget { style_debug: Some(value), ..self },
            None => self,
        }
    }

    pub fn style(self, style: Style) -> (r: Self)
        ensures
            r == (TuiLoggerWidget { style, ..self }),
    {
        TuiLoggerWidget { style, ..self }
    }

    pub fn style_error(self, style: Style) -> (r: Self)
        ensures
            r == (TuiLoggerWidget { style_error: Some(style), ..self }),
    {
        TuiLoggerWidget { style_error: Some(style), ..self }
    }

    pub fn style_warn(self, style: Style) -> (r: Self)
        ensures
            r == (TuiLoggerWidget { style_warn: Some(style), ..self }),
    {
        TuiLoggerWidget { style_warn: Some(style), ..self }
    }

    pub fn style_info(self, style: Style) -> (r: Self)
        ensures
            r == (TuiLoggerWidget { style_info: Some(style), ..self }),
    {
        TuiLoggerWidget { style_info: Some(style), ..self }
    }

    pub fn style_trace(self, style: Style) -> (r: Self)
        ensures
            r == (TuiLoggerWidget { style_trace: Some(style), ..self }),
    {
        TuiLoggerWidget { style_trace: Some(style), ..self }
    }

    pub fn style_debug(self, style: Style) -> (r: Self)
        ensures
            r == (TuiLoggerWidget { style_debug: Some(style), ..self }),
    {
        TuiLoggerWidget { style_debug: Some(style), ..self }
    }

    pub(crate) fn opt_output_separator(self, opt_sep: Option<char>) -> (r: Self)
        ensures
            opt_sep matches Some(value) ==> r == (TuiLoggerWidget { format_separator: value, ..self }),
            opt_sep is None ==> r == self,
    {
        match opt_sep {
            Some(value) => TuiLoggerWidget { format_separator: value, ..self },
            None => self,
        }
    }

    /// Separator character between field.
    /// Default is ':'
    pub fn output_separator(self, sep: char) -> (r: Self)
        ensures
            r == (TuiLoggerWidget { format_separator: sep, ..self }),
    {
        TuiLoggerWidget { format_separator: sep, ..self }
    }

    pub(crate) fn opt_output_timestamp(self, opt_fmt: Option<Option<String>>) -> (r: Self)
        ensures
            opt_fmt matches Some(value) ==> r == (TuiLoggerWidget { format_timestamp: value, ..self }),
            opt_fmt is None ==> r == self,
    {
        match opt_fmt {
            Some(value) => TuiLoggerWidget { format_timestamp: value, ..self },
            None => self,
        }
    }

    /// The format string can be defined as described in
    /// <https://docs.rs/chrono/0.4.19/chrono/format/strftime/index.html>
    ///
    /// If called with None, timestamp is not included in output.
    ///
    /// Default is %H:%M:%S
    pub fn output_timestamp(self, fmt: Option<String>) -> (r: Self)
        ensures
            r == (TuiLoggerWidget { format_timestamp: fmt, ..self }),
    {
        TuiLoggerWidget { format_timestamp: fmt, ..self }
    }

    pub(crate) fn opt_output_level(self, opt_fmt: Option<Option<TuiLoggerLevelOutput>>) -> (r: Self)
        ensures
            opt_fmt matches Some(value) ==> r == (TuiLoggerWidget { format_output_level: value, ..self }),
            opt_fmt is None ==> r == self,
    {
        match opt_fmt {
            Some(value) => TuiLoggerWidget { format_output_level: value, ..self },
            None => self,
        }
    }

    /// Possible values are
    /// - TuiLoggerLevelOutput::Long        => DEBUG/TRACE/...
    /// - TuiLoggerLevelOutput::Abbreviated => D/T/...
    ///
    /// If called with None, level is not included in output.
    ///
    /// Default is Long
    pub fn output_level(self, level: Option<TuiLoggerLevelOutput>) -> (r: Self)
        ensures
            r == (TuiLoggerWidget { format_output_level: level, ..self }),
    {
        TuiLoggerWidget { format_output_level: level, ..self }
    }

    pub(crate) fn opt_output_target(self, opt_enabled: Option<bool>) -> (r: Self)
        ensures
            opt_enabled matches Some(value) ==> r == (TuiLoggerWidget { format_output_target: value, ..self }),
            opt_enabled is None ==> r == self,
    {
        match opt_enabled {
            Some(value) => TuiLoggerWidget { format_output_target: value, ..self },
            None => self,
        }
    }

    /// Enables output of target field of event
    ///
    /// Default is true
    pub fn output_target(self, enabled: bool) -> (r: Self)
        ensures
            r == (TuiLoggerWidget { format_output_target: enabled, ..self }),
    {
        TuiLoggerWidget { format_output_target: enabled, ..self }
    }

    pub(crate) fn opt_output_file(self, opt_enabled: Option<bool>) -> (r: Self)
        ensures
            opt_enabled matches Some(value) ==> r == (TuiLoggerWidget { format_output_file: value, ..self }),
            opt_enabled is None ==> r == self,
    {
        match opt_enabled {
            Some(value) => TuiLoggerWidget { format_output_file: value, ..self },
            None => self,
        }
    }

    /// Enables output of file field of event
    ///
    /// Default is true
    pub fn output_file(self, enabled: bool) -> (r: Self)
        ensures
            r == (TuiLoggerWidget { format_output_file: enabled, ..self }),
    {
        TuiLoggerWidget { format_output_file: enabled, ..self }
    }

    pub(crate) fn opt_output_line(self, opt_enabled: Option<bool>) -> (r: Self)
        ensures
            opt_enabled matches Some(value) ==> r == (TuiLoggerWidget { format_output_line: value, ..self }),
            opt_enabled is None ==> r == self,
    {
        match opt_enabled {
            Some(value) => TuiLoggerWidget { format_output_line: value, ..self },
            None => self,
        }
    }

    /// Enables output of line field of event
    ///
    /// Default is true
    pub fn output_line(self, enabled: bool) -> (r: Self)
        ensures
            r == (TuiLoggerWidget { format_output_line: enabled, ..self }),
    {
        TuiLoggerWidget { format_output_line: enabled, ..self }
    }
}

impl<'b> Default for TuiLoggerWidget<'b> {
    fn default() -> (r: TuiLoggerWidget<'b>)
        ensures
            r.block is None,
            r.style == style_of(0),
            is_neutral(r.style),
            r.style_error is None,
            r.style_warn is None,
            r.style_debug is None,
            r.style_trace is None,
            r.style_info is None,
            r.format_separator == ':',
            opt_text(r.format_timestamp) == Some("%H:%M:%S"@),
            r.format_output_level == Some(TuiLoggerLevelOutput::Long),
            r.format_output_target,
            r.format_output_file,
            r.format_output_line,
    {
        TuiLoggerWidget {
            block: None,
            style: style_with(0),
            style_error: None,
            style_warn: None,
            style_debug: None,
            style_trace: None,
            style_info: None,
            format_separator: ':',
            format_timestamp: Some("%H:%M:%S".to_owned()),
            format_output_level: Some(TuiLoggerLevelOutput::Long),
            format_output_target: true,
            format_output_file: true,
            format_output_line: true,
        }
    }
}

/// The texts of rows, one after the other.
pub open spec fn joined(rows: Seq<LineView>) -> Seq<char>
    decreases rows.len(),
{
    if rows.len() == 0 {
        Seq::empty()
    } else {
        rows[0].text + joined(rows.drop_first())
    }
}

proof fn lemma_further_rows(style: Option<Style>, text: Seq<char>, width: nat)
    requires
        width > 0,
    ensures
        joined(TuiLoggerWidget::further_rows(style, text, width)) == text,
        forall|i: int|
            0 <= i < TuiLoggerWidget::further_rows(style, text, width).len() ==> {
                let row = #[trigger] TuiLoggerWidget::further_rows(style, text, width)[i];
                row.indented && row.style == style && row.text.len() <= width
            },
    decreases text.len(),
{
    let rows = TuiLoggerWidget::further_rows(style, text, width);
    if text.len() > width {
        let rest = TuiLoggerWidget::further_rows(style, text.skip(width as int), width);
        lemma_further_rows(style, text.skip(width as int), width);
        assert(rows.drop_first() =~= rest);
        assert(text.take(width as int) + text.skip(width as int) =~= text);
        assert forall|i: int| 0 <= i < rows.len() implies ({
            let row = #[trigger] rows[i];
            row.indented && row.style == style && row.text.len() <= width
        }) by {
            if i > 0 {
                assert(rows[i] == rest[i - 1]);
            }
        }
    } else {
        assert(rows.drop_first() =~= Seq::<LineView>::empty());
        assert(joined(rows.drop_first()) =~= Seq::<char>::empty());
        assert(joined(rows) =~= text);
    }
}

/// Wrapping a line loses none of its characters: joined, the rows are its text. They have its
/// style. The first row stands where the line stood and has at most as many characters as the
/// width; the others are indented and have at most as many as the indentation leaves of it.
pub proof fn law_wrapping_keeps_text(line: LineView, width: nat)
    requires
        width > INDENT,
    ensures
        joined(TuiLoggerWidget::rows_of(line, width)) == line.text,
        TuiLoggerWidget::rows_of(line, width).len() > 0,
        TuiLoggerWidget::rows_of(line, width)[0].indented == line.indented,
        TuiLoggerWidget::rows_of(line, width)[0].text.len() <= width,
        forall|i: int|
            0 <= i < TuiLoggerWidget::rows_of(line, width).len()
                ==> (#[trigger] TuiLoggerWidget::rows_of(line, width)[i]).style == line.style,
        forall|i: int|
            0 < i < TuiLoggerWidget::rows_of(line, width).len() ==> {
                let row = #[trigger] TuiLoggerWidget::rows_of(line, width)[i];
                row.indented && row.text.len() <= width - INDENT
            },
{
    let rows = TuiLoggerWidget::rows_of(line, width);
    if line.text.len() > width {
        let rest = TuiLoggerWidget::further_rows(
            line.style,
            line.text.skip(width as int),
            (width - INDENT) as nat,
        );
        lemma_further_rows(line.style, line.text.skip(width as int), (width - INDENT) as nat);
        assert(rows.drop_first() =~= rest);
        assert(line.text.take(width as int) + line.text.skip(width as int) =~= line.text);
        assert forall|i: int| 0 < i < rows.len() implies #[trigger] rows[i] == rest[i - 1] by {}
    } else {
        assert(rows.drop_first() =~= Seq::<LineView>::empty());
        assert(joined(rows.drop_first()) =~= Seq::<char>::empty());
        assert(joined(rows) =~= line.text);
    }
}

/// The log never draws outside of the rows of its area, nor to the left of it, and it draws no
/// more rows than the area has.
pub proof fn law_log_stays_in_rows(
    widget: TuiLoggerWidget<'_>,
    s: StateView,
    events: Seq<ExtLogRecord>,
    area: Rect,
    i: int,
)
    requires
        area.wf(),
        widget.listing(s, events, area) is Some,
        0 <= i < widget.listing(s, events, area).unwrap().len(),
    ensures
        widget.listing(s, events, area).unwrap().len() <= area.height,
        widget.listing(s, events, area).unwrap()[i] matches DrawView::Text { x, y, .. } && area.x
            <= x && area.y <= y < area.y + area.height,
{
}

/// The place in the code is not shown of events at level `Info`.
pub proof fn law_info_has_no_location(
    widget: TuiLoggerWidget<'_>,
    e: EventView,
    time: Option<Seq<char>>,
    file: Seq<char>,
    line: u32,
)
    requires
        e.level == Level::Info,
    ensures
        widget.prefix(e, time) == widget.prefix(EventView { file, line, ..e }, time),
{
}

/// Events that do not pass the filters change nothing on a page.
pub proof fn law_filtered_events_do_not_matter(
    widget: TuiLoggerWidget<'_>,
    s: StateView,
    height: nat,
    events: Seq<EventView>,
)
    ensures
        widget.page_of(s, height, events) == widget.page_of(
            s,
            height,
            events.filter(|e: EventView| passes(s, e)),
        ),
    decreases events.len(),
{
    reveal(Seq::filter);
    let keep = |e: EventView| passes(s, e);
    if events.len() > 0 {
        let older = events.drop_last();
        law_filtered_events_do_not_matter(widget, s, height, older);
        if passes(s, events.last()) {
            assert(events.filter(keep) == older.filter(keep).push(events.last()));
            assert(events.filter(keep).drop_last() =~= older.filter(keep));
        } else {
            assert(events.filter(keep) == older.filter(keep));
        }
    }
}

/// In the history, the next page ends after the page that is shown, and the previous one does
/// not. While the newest events are shown, there is no next page.
pub proof fn law_pages_are_in_order(
    widget: TuiLoggerWidget<'_>,
    s: StateView,
    height: nat,
    events: Seq<EventView>,
)
    ensures
        widget.page_of(s, height, events) matches Some(page) ==> {
            &&& page.next_page matches Some(next) ==> s.timestamp_bottom matches Some(bottom)
                && bottom.precedes(next)
            &&& page.prev_page matches Some(prev) ==> !(s.timestamp_bottom matches Some(bottom)
                && bottom.precedes(prev))
            &&& forall|i: int|
                0 <= i < page.skipped.len() ==> (s.timestamp_bottom matches Some(bottom)
                    && bottom.precedes(#[trigger] page.skipped[i]))
        },
    decreases events.len(),
{
    if events.len() > 0 {
        law_pages_are_in_order(widget, s, height, events.drop_last());
    }
}

/// Whether an event is the newest one that belongs on the page.
pub open spec fn is_newest_shown(s: StateView, events: Seq<EventView>, k: int) -> bool {
    &&& 0 <= k < events.len()
    &&& passes(s, events[k]) && !is_after_page(s, events[k])
    &&& forall|j: int|
        0 <= j < k ==> !passes(s, #[trigger] events[j]) || is_after_page(s, events[j])
}

impl<'b> TuiLoggerWidget<'b> {
    /// Until an event is on the page, the page has no lines; the first one's lines come first.
    proof fn lemma_page_start(&self, s: StateView, height: nat, events: Seq<EventView>, k: int)
        requires
            height > 0,
            is_newest_shown(s, events, k) || (k == events.len() && forall|j: int|
                0 <= j < k ==> !passes(s, #[trigger] events[j]) || is_after_page(s, events[j])),
        ensures
            self.page_of(s, height, events) matches Some(page) ==> {
                &&& k == events.len() ==> page.lines.len() == 0 && !page.full
                &&& k < events.len() ==> {
                    let own = event_lines(
                        self.prefix(events[k], self.time_text(events[k])),
                        self.level_style(events[k].level),
                        lines_of(events[k].msg),
                    );
                    own.len() > 0 && page.lines.len() > 0 && page.lines[0] == own[0]
                }
            },
        decreases events.len(),
    {
        if events.len() > 0 {
            let newer = events.drop_last();
            assert forall|j: int| 0 <= j < k && j < newer.len() implies !passes(
                s,
                #[trigger] newer[j],
            ) || is_after_page(s, newer[j]) by {
                assert(newer[j] == events[j]);
            }
            if k == events.len() {
                assert(!passes(s, events[k - 1]) || is_after_page(s, events[k - 1]));
                self.lemma_page_start(s, height, newer, k - 1);
            } else {
                self.lemma_page_start(s, height, newer, k);
            }
        }
    }

    /// The rows of the last line, which comes first, are the last rows.
    proof fn lemma_rows_end(lines: Seq<LineView>, width: nat)
        requires
            lines.len() > 0,
            width > INDENT,
        ensures
            Self::all_rows(lines, width).len() > 0,
            Self::all_rows(lines, width).last() == Self::rows_of(lines[0], width).last(),
        decreases lines.len(),
    {
        law_wrapping_keeps_text(lines[0], width);
        if lines.len() > 1 {
            Self::lemma_rows_end(lines.drop_last(), width);
        } else {
            assert(Self::all_rows(lines.drop_last(), width) =~= Seq::<LineView>::empty());
            assert(Self::all_rows(lines, width) =~= Self::rows_of(lines[0], width));
        }
    }
}

/// The last row of the log is the end of the newest event that passes the filters and does not
/// lie after the page.
pub proof fn law_newest_event_comes_last(
    widget: TuiLoggerWidget<'_>,
    s: StateView,
    events: Seq<ExtLogRecord>,
    area: Rect,
    k: int,
)
    requires
        !TuiLoggerWidget::too_small(area),
        is_newest_shown(s, newest_first(events), k),
        widget.listing(s, events, area) is Some,
    ensures
        ({
            let e = newest_first(events)[k];
            let prefix = widget.prefix(e, widget.time_text(e));
            let own = event_lines(prefix, widget.level_style(e.level), lines_of(e.msg));
            let listing = widget.listing(s, events, area).unwrap();
            &&& own.len() > 0
            &&& listing.len() > 0
            &&& listing.last() matches DrawView::Text { text, .. } && text
                == TuiLoggerWidget::rows_of(own[0], area.width as nat).last().text
        }),
{
    let all = newest_first(events);
    let page = widget.page_of(s, area.height as nat, all).unwrap();
    widget.lemma_page_start(s, area.height as nat, all, k);
    TuiLoggerWidget::lemma_rows_end(page.lines, area.width as nat);
}

/// An event of which no field is asked for is shown by its message alone.
pub proof fn law_fields_can_be_left_out(widget: TuiLoggerWidget<'_>, e: EventView)
    requires
        widget.format_timestamp is None,
        widget.format_output_level is None,
        !widget.format_output_target,
        !widget.format_output_file,
        !widget.format_output_line,
    ensures
        widget.can_format(e),
        widget.prefix(e, widget.time_text(e)) == Seq::<char>::empty(),
{
}

/// Laying the log out changes nothing in the state but where the pages next to the one shown end;
/// in an area that is too small for it, it changes nothing and draws nothing.
pub proof fn law_log_changes_pages_only(
    widget: TuiLoggerWidget<'_>,
    s: StateView,
    events: Seq<ExtLogRecord>,
    area: Rect,
)
    ensures
        ({
            let after = widget.laid_out(s, events, area);
            &&& after == (StateView {
                timestamp_next_page: after.timestamp_next_page,
                timestamp_prev_page: after.timestamp_prev_page,
                ..s
            })
            &&& TuiLoggerWidget::too_small(area) ==> after == s && widget.listing(s, events, area)
                == Some(Seq::<DrawView>::empty())
        }),
{
}

impl<'b> TuiLoggerWidget<'b> {
    /// The lines of all events, the newest first, that pass the filters and do not lie after the
    /// page, the last line first.
    pub open spec fn all_lines(&self, s: StateView, events: Seq<EventView>) -> Seq<LineView>
        decreases events.len(),
    {
        if events.len() == 0 {
            Seq::empty()
        } else {
            let e = events.last();
            let newer = self.all_lines(s, events.drop_last());
            if passes(s, e) && !is_after_page(s, e) {
                newer + event_lines(
                    self.prefix(e, self.time_text(e)),
                    self.level_style(e.level),
                    lines_of(e.msg),
                )
            } else {
                newer
            }
        }
    }

    /// A page has the first of all lines, and all of them unless it is full.
    proof fn lemma_page_is_prefix(&self, s: StateView, height: nat, events: Seq<EventView>)
        ensures
            self.page_of(s, height, events) matches Some(page) ==> {
                let all = self.all_lines(s, events);
                &&& page.lines.len() <= all.len()
                &&& page.lines == all.take(page.lines.len() as int)
                &&& !page.full ==> page.lines == all
                &&& page.full ==> page.lines.len() == height
            },
        decreases events.len(),
    {
        if events.len() > 0 {
            self.lemma_page_is_prefix(s, height, events.drop_last());
            if let Some(page) = self.page_of(s, height, events) {
                let all = self.all_lines(s, events);
                let newer = self.all_lines(s, events.drop_last());
                let before = self.page_of(s, height, events.drop_last()).unwrap();
                assert(newer =~= all.take(newer.len() as int));
                if before.full {
                    assert(page.lines =~= all.take(page.lines.len() as int));
                } else {
                    assert(all =~= all.take(all.len() as int));
                }
            }
        }
    }

    /// The rows of lines in two parts are those of the second part above those of the first.
    proof fn lemma_rows_of_parts(first: Seq<LineView>, second: Seq<LineView>, width: nat)
        ensures
            Self::all_rows(first + second, width) == Self::all_rows(second, width)
                + Self::all_rows(first, width),
        decreases second.len(),
    {
        if second.len() == 0 {
            assert(first + second =~= first);
            assert(Self::all_rows(second, width) =~= Seq::<LineView>::empty());
            assert(Self::all_rows(second, width) + Self::all_rows(first, width)
                =~= Self::all_rows(first, width));
        } else {
            Self::lemma_rows_of_parts(first, second.drop_last(), width);
            assert((first + second).drop_last() =~= first + second.drop_last());
            assert(Self::all_rows(first + second, width) =~= Self::all_rows(second, width)
                + Self::all_rows(first, width));
        }
    }

    /// There is at least a row for each line.
    proof fn lemma_enough_rows(lines: Seq<LineView>, width: nat)
        ensures
            Self::all_rows(lines, width).len() >= lines.len(),
        decreases lines.len(),
    {
        if lines.len() > 0 {
            Self::lemma_enough_rows(lines.drop_last(), width);
        }
    }
}

/// The log shows the last rows, as many as fit, of all events that pass the filters and do not
/// lie after the page, though it does not go through all of them.
pub proof fn law_last_rows_are_shown(
    widget: TuiLoggerWidget<'_>,
    s: StateView,
    events: Seq<ExtLogRecord>,
    area: Rect,
)
    requires
        !TuiLoggerWidget::too_small(area),
        widget.listing(s, events, area) is Some,
    ensures
        widget.listing(s, events, area) == Some(
            widget.placed(
                latest(
                    TuiLoggerWidget::all_rows(
                        widget.all_lines(s, newest_first(events)),
                        area.width as nat,
                    ),
                    area.height as nat,
                ),
                s.timestamp_bottom is Some,
                area,
            ),
        ),
{
    let height = area.height as nat;
    let width = area.width as nat;
    let all = widget.all_lines(s, newest_first(events));
    let page = widget.page_of(s, height, newest_first(events)).unwrap();
    widget.lemma_page_is_prefix(s, height, newest_first(events));
    if page.full {
        let older = all.skip(height as int);
        assert(page.lines + older =~= all);
        TuiLoggerWidget::lemma_rows_of_parts(page.lines, older, width);
        TuiLoggerWidget::lemma_enough_rows(page.lines, width);
        assert(latest(TuiLoggerWidget::all_rows(all, width), height) =~= latest(
            TuiLoggerWidget::all_rows(page.lines, width),
            height,
        ));
    }
}

/// The level that limits what is displayed of a target: its own, or that for unknown targets, if
/// there is one.
pub open spec fn is_too_verbose(s: StateView, e: EventView) -> bool {
    if s.levels.contains_key(e.target) {
        !s.levels[e.target].lets_through(e.level)
    } else {
        s.display_level is Some && !s.display_level.unwrap().lets_through(e.level)
    }
}

/// An event passes if it is not too verbose, with the focus on or off, and is not of another target
/// than the one in focus. So the focus only ever takes events away, and without it, or without a
/// selected target, the levels alone decide.
pub proof fn law_level_filter_holds_in_focus(s: StateView, e: EventView)
    ensures
        is_too_verbose(s, e) ==> !passes(s, e),
        passes(s, e) ==> passes(StateView { focus_selected: false, ..s }, e),
        passes(StateView { focus_selected: false, ..s }, e) <==> !is_too_verbose(s, e),
        s.focus_selected && s.selected_target is Some ==> (passes(s, e) <==> !is_too_verbose(s, e)
            && e.target == s.selected_target.unwrap()),
        !s.focus_selected || s.selected_target is None ==> (passes(s, e) <==> !is_too_verbose(
            s,
            e,
        )),
        is_after_page(s, e) <==> s.timestamp_bottom is Some
            && s.timestamp_bottom.unwrap().precedes(e.timestamp),
{
}

/// No event that is too verbose is shown: the log is the same without all of these.
pub proof fn law_too_verbose_events_are_not_shown(
    widget: TuiLoggerWidget<'_>,
    s: StateView,
    height: nat,
    events: Seq<EventView>,
)
    ensures
        widget.page_of(s, height, events) == widget.page_of(
            s,
            height,
            events.filter(|e: EventView| !is_too_verbose(s, e)),
        ),
    decreases events.len(),
{
    reveal(Seq::filter);
    let keep = |e: EventView| !is_too_verbose(s, e);
    if events.len() > 0 {
        let newer = events.drop_last();
        law_too_verbose_events_are_not_shown(widget, s, height, newer);
        if keep(events.last()) {
            assert(events.filter(keep) == newer.filter(keep).push(events.last()));
            assert(events.filter(keep).drop_last() =~= newer.filter(keep));
        } else {
            assert(events.filter(keep) == newer.filter(keep));
        }
    }
}

/// Whether an event belongs on the page or on one before it.
pub open spec fn is_shown(s: StateView, e: EventView) -> bool {
    passes(s, e) && !is_after_page(s, e)
}

/// How many lines the events have that belong on the page or on one before it.
pub open spec fn line_count(s: StateView, events: Seq<EventView>) -> nat
    decreases events.len(),
{
    if events.len() == 0 {
        0
    } else {
        line_count(s, events.drop_last()) + if is_shown(s, events.last()) {
            lines_of(events.last().msg).len()
        } else {
            0
        }
    }
}

/// The times of the events that pass but lie after the page.
pub open spec fn later_times(s: StateView, events: Seq<EventView>) -> Seq<Timestamp>
    decreases events.len(),
{
    if events.len() == 0 {
        Seq::empty()
    } else if passes(s, events.last()) && is_after_page(s, events.last()) {
        later_times(s, events.drop_last()).push(events.last().timestamp)
    } else {
        later_times(s, events.drop_last())
    }
}

impl<'b> TuiLoggerWidget<'b> {
    /// While the events have fewer lines than half a page, no page before it is known.
    proof fn lemma_early_page(&self, s: StateView, height: nat, events: Seq<EventView>)
        requires
            height > 0,
            line_count(s, events) < height / 2 || line_count(s, events) == 0,
        ensures
            self.page_of(s, height, events) matches Some(page) ==> page.prev_page is None
                && !page.full && page.lines.len() == line_count(s, events),
        decreases events.len(),
    {
        if events.len() > 0 {
            self.lemma_early_page(s, height, events.drop_last());
        }
    }

    /// Where the page before this one ends, does not change once it is known or the page is full.
    proof fn lemma_prev_settled(&self, s: StateView, height: nat, events: Seq<EventView>, n: nat)
        requires
            n <= events.len(),
            self.page_of(s, height, events.take(n as int)) matches Some(page) ==> page.prev_page
                is Some || page.full,
        ensures
            self.page_of(s, height, events) matches Some(page) ==> (self.page_of(
                s,
                height,
                events.take(n as int),
            ) matches Some(early) && page.prev_page == early.prev_page),
        decreases events.len() - n,
    {
        if n < events.len() {
            assert(events.take(n as int + 1).drop_last() =~= events.take(n as int));
            self.lemma_prev_settled(s, height, events, n + 1);
        } else {
            assert(events.take(n as int) =~= events);
        }
    }

    /// Before an event is on the page, the last times after it are remembered.
    proof fn lemma_later_times(&self, s: StateView, height: nat, events: Seq<EventView>)
        requires
            forall|j: int|
                0 <= j < events.len() ==> !passes(s, #[trigger] events[j]) || is_after_page(
                    s,
                    events[j],
                ),
        ensures
            self.page_of(s, height, events) == Some(
                PageView {
                    skipped: latest(later_times(s, events), 10),
                    next_page: None,
                    lines: Seq::empty(),
                    prev_page: None,
                    full: false,
                },
            ),
        decreases events.len(),
    {
        if events.len() > 0 {
            let newer = events.drop_last();
            assert forall|j: int| 0 <= j < newer.len() implies !passes(s, #[trigger] newer[j])
                || is_after_page(s, newer[j]) by {
                assert(newer[j] == events[j]);
            }
            self.lemma_later_times(s, height, newer);
            assert(!passes(s, events[events.len() - 1]) || is_after_page(
                s,
                events[events.len() - 1],
            ));
            law_keeps_latest(later_times(s, newer), events.last().timestamp, 10);
        }
    }

    /// Where the page after this one ends, does not change while no more events lie after it.
    proof fn lemma_next_settled(&self, s: StateView, height: nat, events: Seq<EventView>, n: nat)
        requires
            n <= events.len(),
            forall|j: int|
                n <= j < events.len() ==> !passes(s, #[trigger] events[j]) || !is_after_page(
                    s,
                    events[j],
                ),
            self.page_of(s, height, events.take(n as int)) matches Some(page) ==> page.skipped.len()
                == 0,
        ensures
            self.page_of(s, height, events) matches Some(page) ==> (self.page_of(
                s,
                height,
                events.take(n as int),
            ) matches Some(early) && page.next_page == early.next_page),
        decreases events.len() - n,
    {
        if n < events.len() {
            assert(events.take(n as int + 1).drop_last() =~= events.take(n as int));
            assert(events.take(n as int + 1).last() == events[n as int]);
            self.lemma_next_settled(s, height, events, n + 1);
        } else {
            assert(events.take(n as int) =~= events);
        }
    }

    /// A page can be made of events that can all be written.
    proof fn lemma_page_exists(&self, s: StateView, height: nat, events: Seq<EventView>)
        requires
            forall|j: int|
                0 <= j < events.len() && is_shown(s, #[trigger] events[j]) ==> self.can_format(
                    events[j],
                ) && events[j].msg.len() > 0,
        ensures
            self.page_of(s, height, events) is Some,
        decreases events.len(),
    {
        if events.len() > 0 {
            let newer = events.drop_last();
            assert forall|j: int| 0 <= j < newer.len() && is_shown(
                s,
                #[trigger] newer[j],
            ) implies self.can_format(newer[j]) && newer[j].msg.len() > 0 by {
                assert(newer[j] == events[j]);
            }
            self.lemma_page_exists(s, height, newer);
            assert(is_shown(s, events[events.len() - 1]) ==> self.can_format(
                events[events.len() - 1],
            ) && events[events.len() - 1].msg.len() > 0);
        }
    }
}

/// The previous page ends in the middle of the page that is shown: at the newest event with which
/// there are at least half as many lines as the page is high. If this event fills the page exactly,
/// or there is none, there is no other page before, and that page ends where this one does.
pub proof fn law_previous_page_ends_in_the_middle(
    widget: TuiLoggerWidget<'_>,
    s: StateView,
    events: Seq<ExtLogRecord>,
    area: Rect,
    i: int,
)
    requires
        area.width >= 13,
        area.height >= 1,
        widget.listing(s, events, area) is Some,
    ensures
        ({
            let all = newest_first(events);
            let half = area.height as nat / 2;
            let newer = line_count(s, all.take(i));
            let with_it = line_count(s, all.take(i + 1));
            let prev = widget.laid_out(s, events, area).timestamp_prev_page;
            &&& 0 <= i < all.len() && is_shown(s, all[i]) && (newer < half || newer == 0) && half
                <= with_it && with_it != area.height ==> prev == Some(all[i].timestamp)
            &&& 0 <= i < all.len() && is_shown(s, all[i]) && (newer < half || newer == 0)
                && with_it == area.height ==> prev == s.timestamp_bottom
            &&& line_count(s, all) < half || line_count(s, all) == 0 ==> prev == s.timestamp_bottom
        }),
{
    let all = newest_first(events);
    let height = area.height as nat;
    if 0 <= i < all.len() && is_shown(s, all[i]) && (line_count(s, all.take(i)) < height / 2
        || line_count(s, all.take(i)) == 0) && height / 2 <= line_count(s, all.take(i + 1)) {
        widget.lemma_early_page(s, height, all.take(i));
        assert(all.take(i + 1).drop_last() =~= all.take(i));
        assert(all.take(i + 1).last() == all[i]);
        widget.lemma_prev_settled(s, height, all, (i + 1) as nat);
    }
    if line_count(s, all) < height / 2 || line_count(s, all) == 0 {
        widget.lemma_early_page(s, height, all);
    }
}

/// The next page ends at the tenth of the events that follow the page, or at the newest one if
/// there are fewer; and there is none if no event follows it. (The events are taken to lie in the
/// order of their times: none that lies after the page comes behind one that is shown.)
pub proof fn law_next_page_is_ten_events_on(
    widget: TuiLoggerWidget<'_>,
    s: StateView,
    events: Seq<ExtLogRecord>,
    area: Rect,
    k: int,
)
    requires
        area.width >= 13,
        area.height >= 1,
        widget.listing(s, events, area) is Some,
        is_newest_shown(s, newest_first(events), k),
        forall|j: int|
            k < j < events.len() ==> !passes(s, #[trigger] newest_first(events)[j])
                || !is_after_page(s, newest_first(events)[j]),
    ensures
        ({
            let later = later_times(s, newest_first(events).take(k));
            let next = widget.laid_out(s, events, area).timestamp_next_page;
            &&& later.len() == 0 ==> next is None
            &&& 0 < later.len() <= 10 ==> next == Some(later[0])
            &&& later.len() > 10 ==> next == Some(later[later.len() - 10])
        }),
{
    let all = newest_first(events);
    let height = area.height as nat;
    let newer = all.take(k);
    assert forall|j: int| 0 <= j < newer.len() implies !passes(s, #[trigger] newer[j])
        || is_after_page(s, newer[j]) by {
        assert(newer[j] == all[j]);
    }
    widget.lemma_later_times(s, height, newer);
    assert(all.take(k + 1).drop_last() =~= newer);
    assert(all.take(k + 1).last() == all[k]);
    widget.lemma_next_settled(s, height, all, (k + 1) as nat);
}

/// The log can be shown in any area with coordinates if each event that may be on the page has a
/// message and a time that can be written, and the rows can be counted; and it cannot if the newest
/// one has no message or no such time.
pub proof fn law_log_can_be_shown(
    widget: TuiLoggerWidget<'_>,
    s: StateView,
    events: Seq<ExtLogRecord>,
    area: Rect,
    k: int,
)
    requires
        area.wf(),
    ensures
        (forall|j: int|
            0 <= j < events.len() && is_shown(s, #[trigger] newest_first(events)[j])
                ==> widget.can_format(newest_first(events)[j]) && newest_first(events)[j].msg.len()
                > 0) && TuiLoggerWidget::all_rows(
            widget.all_lines(s, newest_first(events)),
            area.width as nat,
        ).len() <= usize::MAX ==> widget.listing(s, events, area) is Some,
        is_newest_shown(s, newest_first(events), k) && area.width >= 13 && area.height >= 1 && (
        newest_first(events)[k].msg.len() == 0 || !widget.can_format(newest_first(events)[k]))
            ==> widget.listing(s, events, area) is None,
        area.width < 13 || area.height < 1 ==> widget.listing(s, events, area) == Some(
            Seq::<DrawView>::empty(),
        ) && widget.laid_out(s, events, area) == s,
{
    let all = newest_first(events);
    let height = area.height as nat;
    let width = area.width as nat;
    if (forall|j: int|
        0 <= j < events.len() && is_shown(s, #[trigger] all[j]) ==> widget.can_format(all[j])
            && all[j].msg.len() > 0) && !TuiLoggerWidget::too_small(area) {
        widget.lemma_page_exists(s, height, all);
        widget.lemma_page_is_prefix(s, height, all);
        let lines = widget.page_of(s, height, all).unwrap().lines;
        let whole = widget.all_lines(s, all);
        let older = whole.skip(lines.len() as int);
        assert(lines + older =~= whole);
        TuiLoggerWidget::lemma_rows_of_parts(lines, older, width);
    }
    if is_newest_shown(s, all, k) && !TuiLoggerWidget::too_small(area) && (all[k].msg.len() == 0
        || !widget.can_format(all[k])) {
        let newer = all.take(k);
        assert forall|j: int| 0 <= j < newer.len() implies !passes(s, #[trigger] newer[j])
            || is_after_page(s, newer[j]) by {
            assert(newer[j] == all[j]);
        }
        widget.lemma_later_times(s, height, newer);
        assert(all.take(k + 1).drop_last() =~= newer);
        assert(all.take(k + 1).last() == all[k]);
        widget.lemma_page_settled(s, height, all, (k + 1) as nat);
    }
}

/// The lines of an event are those of its message, the last one first. The first line stands at
/// the left edge behind the prefix; the others are indented and have no prefix. All have the style
/// of the event.
pub proof fn law_event_has_lines_of_message(
    prefix: Seq<char>,
    style: Option<Style>,
    lines: Seq<Seq<char>>,
    m: int,
)
    requires
        0 <= m < lines.len(),
    ensures
        ({
            let own = event_lines(prefix, style, lines);
            let line = own[own.len() - 1 - m];
            &&& own.len() == lines.len()
            &&& line.style == style
            &&& m == 0 ==> !line.indented && line.text == prefix + lines[0]
            &&& m > 0 ==> line.indented && line.text == lines[m]
        }),
{
}

/// The names and letters of the levels.
pub proof fn law_levels_have_names(level: Level)
    ensures
        level_name(Level::Error) == "ERROR"@,
        level_name(Level::Warn) == "WARN "@,
        level_name(Level::Info) == "INFO "@,
        level_name(Level::Debug) == "DEBUG"@,
        level_name(Level::Trace) == "TRACE"@,
        level_letter(level) == level_name(level).take(1),
        level_name(level).len() == 5,
{
    reveal_strlit("ERROR");
    reveal_strlit("WARN ");
    reveal_strlit("INFO ");
    reveal_strlit("DEBUG");
    reveal_strlit("TRACE");
    reveal_strlit("E");
    reveal_strlit("W");
    reveal_strlit("I");
    reveal_strlit("D");
    reveal_strlit("T");
    assert(level_letter(level) =~= level_name(level).take(1));
}

/// Before the message of an event stand its time, level, target, file and line, in this order, each
/// followed by the separator, and each exactly if it is asked for, whatever it holds; but file and
/// line not at level `Info`.
pub proof fn law_fields_stand_before_message(
    widget: TuiLoggerWidget<'_>,
    evt: &ExtLogRecord,
    time: Option<&str>,
)
    ensures
        forall|r: (String, Option<Style>)| #[trigger]
            call_ensures(TuiLoggerWidget::event_prefix, (&widget, evt, time), r) ==> {
                let sep = seq![widget.format_separator];
                let none = Seq::<char>::empty();
                let located = evt.level != Level::Info;
                &&& r.0@ == (match time {
                    Some(text) => text@ + sep,
                    None => none,
                }) + (match widget.format_output_level {
                    Some(TuiLoggerLevelOutput::Long) => level_name(evt.level) + sep,
                    Some(TuiLoggerLevelOutput::Abbreviated) => level_letter(evt.level) + sep,
                    None => none,
                }) + (if widget.format_output_target {
                    evt.target@ + sep
                } else {
                    none
                }) + (if widget.format_output_file && located {
                    evt.file@ + sep
                } else {
                    none
                }) + (if widget.format_output_line && located {
                    decimal(evt.line as nat) + sep
                } else {
                    none
                })
                &&& evt.level == Level::Error ==> r.1 == widget.style_error
                &&& evt.level == Level::Warn ==> r.1 == widget.style_warn
                &&& evt.level == Level::Info ==> r.1 == widget.style_info
                &&& evt.level == Level::Debug ==> r.1 == widget.style_debug
                &&& evt.level == Level::Trace ==> r.1 == widget.style_trace
            },
{
    assert forall|text: Seq<char>, sep: char| #[trigger] text.push(sep) == text + seq![sep] by {
        assert(text.push(sep) =~= text + seq![sep]);
    }
}

/// An event is written as `event_prefix` writes it with its time in the format that is asked for,
/// or without a time if none is asked for; and it can be written unless there is such a format and
/// it fails.
pub proof fn law_time_is_in_format(
    widget: TuiLoggerWidget<'_>,
    evt: &ExtLogRecord,
    time: &str,
)
    ensures
        forall|r: (String, Option<Style>), p: (String, Option<Style>)|
            (widget.format_timestamp is None && #[trigger] call_ensures(
                TuiLoggerWidget::format_event,
                (&widget, evt),
                r,
            ) && #[trigger] call_ensures(TuiLoggerWidget::event_prefix, (&widget, evt, None::<&str>), p))
                ==> r.0@ == p.0@ && r.1 == p.1,
        forall|r: (String, Option<Style>), p: (String, Option<Style>)|
            (widget.format_timestamp is Some && strftime(
                evt.timestamp.secs,
                evt.timestamp.nanos,
                evt.timestamp.offset,
                widget.format_timestamp.unwrap()@,
            ) == Some(time@) && #[trigger] call_ensures(
                TuiLoggerWidget::format_event,
                (&widget, evt),
                r,
            ) && #[trigger] call_ensures(TuiLoggerWidget::event_prefix, (&widget, evt, Some(time)), p))
                ==> r.0@ == p.0@ && r.1 == p.1,
        forall|r: Option<(String, Option<Style>)>| #[trigger]
            call_ensures(TuiLoggerWidget::try_format_event, (&widget, evt), r) ==> {
                &&& r is None <==> widget.format_timestamp is Some && strftime(
                    evt.timestamp.secs,
                    evt.timestamp.nanos,
                    evt.timestamp.offset,
                    widget.format_timestamp.unwrap()@,
                ) is None
            },
        forall|r: Option<(String, Option<Style>)>, p: (String, Option<Style>)|
            (#[trigger] call_ensures(TuiLoggerWidget::try_format_event, (&widget, evt), r)
                && #[trigger] call_ensures(TuiLoggerWidget::format_event, (&widget, evt), p))
                ==> (r matches Some(text) ==> text.0@ == p.0@ && text.1 == p.1),
        widget.can_format(evt@) <==> (widget.format_timestamp is None || strftime(
            evt.timestamp.secs,
            evt.timestamp.nanos,
            evt.timestamp.offset,
            widget.format_timestamp.unwrap()@,
        ) is Some),
{
}

proof fn lemma_further_rows_filled(style: Option<Style>, text: Seq<char>, width: nat)
    requires
        width > 0,
        text.len() > 0,
    ensures
        ({
            let rows = TuiLoggerWidget::further_rows(style, text, width);
            &&& rows.len() > 0
            &&& rows.last().text.len() > 0
            &&& forall|i: int|
                0 <= i < rows.len() - 1 ==> (#[trigger] rows[i]).text.len() == width
        }),
    decreases text.len(),
{
    let rows = TuiLoggerWidget::further_rows(style, text, width);
    if text.len() > width {
        let rest = TuiLoggerWidget::further_rows(style, text.skip(width as int), width);
        lemma_further_rows_filled(style, text.skip(width as int), width);
        assert forall|i: int| 0 <= i < rows.len() - 1 implies (#[trigger] rows[i]).text.len()
            == width by {
            if i > 0 {
                assert(rows[i] == rest[i - 1]);
            }
        }
        assert(rows.last() == rest.last());
    }
}

/// A line is broken only where it has to be. One that has room stays whole; of another the first
/// row fills the whole width, and all further ones but the last fill what the indentation leaves.
pub proof fn law_rows_are_filled(line: LineView, width: nat, i: int)
    requires
        width > INDENT,
    ensures
        ({
            let rows = TuiLoggerWidget::rows_of(line, width);
            &&& line.text.len() <= width ==> rows == seq![line]
            &&& line.text.len() > width ==> {
                &&& rows.len() >= 2
                &&& rows[0].text.len() == width
                &&& 0 < i < rows.len() - 1 ==> rows[i].text.len() == width - 9
                &&& rows.last().text.len() > 0
            }
        }),
{
    if line.text.len() > width {
        let rows = TuiLoggerWidget::rows_of(line, width);
        let rest = TuiLoggerWidget::further_rows(
            line.style,
            line.text.skip(width as int),
            (width - INDENT) as nat,
        );
        lemma_further_rows_filled(line.style, line.text.skip(width as int), (width - INDENT) as nat);
        if 0 < i < rows.len() - 1 {
            assert(rows[i] == rest[i - 1]);
        }
        assert(rows.last() == rest.last());
    }
}

/// The rows of lines, of which the last stands at the top, stand below each other: those of each
/// line below those of the lines after it.
pub proof fn law_rows_keep_order(lines: Seq<LineView>, line: LineView, width: nat)
    ensures
        TuiLoggerWidget::all_rows(lines.push(line), width) == TuiLoggerWidget::rows_of(line, width)
            + TuiLoggerWidget::all_rows(lines, width),
        TuiLoggerWidget::all_rows(Seq::empty(), width) == Seq::<LineView>::empty(),
        forall|page: Vec<LogLine>, w: usize, h: usize, r: Option<Vec<LogLine>>|
            (line_views(page@) == lines && #[trigger] call_ensures(
                TuiLoggerWidget::wrap,
                (page, w, h),
                r,
            )) ==> (r is Some <==> TuiLoggerWidget::all_rows(lines, w as nat).len() <= usize::MAX)
                && (r matches Some(rows) ==> line_views(rows@) == latest(
                TuiLoggerWidget::all_rows(lines, w as nat),
                h as nat,
            )),
{
    assert(lines.push(line).drop_last() =~= lines);
}

/// Each row is drawn in a row of the area of its own, from the top down, or, in the history, so
/// that the last one stands at the bottom. It starts at the left edge, or nine columns on if it is
/// indented, is drawn in full, and has the style of its event, or that of the widget.
pub proof fn law_rows_are_placed(
    widget: TuiLoggerWidget<'_>,
    rows: Seq<LineView>,
    in_history: bool,
    area: Rect,
    i: int,
)
    requires
        area.wf(),
        area.width >= 9,
        rows.len() <= area.height,
        0 <= i < rows.len(),
    ensures
        TuiLoggerWidget::in_range(rows, in_history, area),
        widget.placed(rows, in_history, area).len() == rows.len(),
        widget.placed(rows, in_history, area)[i] matches DrawView::Text {
            x,
            y,
            text,
            max_width,
            style,
        } && {
            &&& rows[i].indented ==> x == area.x + 9
            &&& !rows[i].indented ==> x == area.x
            &&& !in_history ==> y == area.y + i
            &&& in_history ==> y == area.y + area.height - (rows.len() - i)
            &&& text == rows[i].text
            &&& max_width == byte_len(text)
            &&& rows[i].style matches Some(own) ==> style == own
            &&& rows[i].style is None ==> style == widget.style
        },
{
}

/// `layout` says what is listed, and `render` draws it on the backdrop: it succeeds exactly if the
/// page can be laid out in what the block leaves of the area and can be drawn in the buffer, and
/// leaves the state as `layout` does.
pub proof fn law_render_draws_layout(
    widget: TuiLoggerWidget<'_>,
    events: &CircularBuffer<ExtLogRecord>,
    area: Rect,
)
    ensures
        forall|
            st: &mut TuiWidgetInnerState,
            buf: &mut Buffer,
            r: bool,
            other: &mut TuiWidgetInnerState,
            laid: Option<Vec<Draw>>,
        |
            (#[trigger] call_ensures(TuiLoggerWidget::render, (widget, st, events, area, buf), r)
                && other@ == st@ && #[trigger] call_ensures(
                TuiLoggerWidget::layout,
                (&widget, other, events, content_area(widget.block, area)),
                laid,
            )) ==> {
                &&& final(st)@ == final(other)@
                &&& r <==> (laid matches Some(draws) && can_draw_all(
                    buffer_area(*buf),
                    draw_views(draws@),
                ))
                &&& !r ==> *final(buf) == *buf
                &&& r ==> buffer_cells(*final(buf)) == all_drawn(
                    buffer_area(*buf),
                    backdrop(buffer_area(*buf), buffer_cells(*buf), area, widget.style, widget.block),
                    draw_views(laid.unwrap()@),
                )
            },
        forall|st: &mut TuiWidgetInnerState, laid: Option<Vec<Draw>>| #[trigger]
            call_ensures(TuiLoggerWidget::layout, (&widget, st, events, area), laid) ==> {
                &&& laid is Some <==> widget.listing(st@, events@, area) is Some
                &&& laid matches Some(draws) ==> Some(draw_views(draws@)) == widget.listing(
                    st@,
                    events@,
                    area,
                )
                &&& final(st)@ == widget.laid_out(st@, events@, area)
            },
{
}

/// Each setting of the widget changes what it is named after and nothing else.
pub proof fn law_log_settings_are_apart()
    ensures
        forall|w: TuiLoggerWidget<'_>, value: Block<'_>, r: TuiLoggerWidget<'_>| #[trigger]
            call_ensures(TuiLoggerWidget::block, (w, value), r) ==> r == (TuiLoggerWidget { block: Some(value), ..w }),
        forall|w: TuiLoggerWidget<'_>, value: Style, r: TuiLoggerWidget<'_>| #[trigger]
            call_ensures(TuiLoggerWidget::style, (w, value), r) ==> r == (TuiLoggerWidget { style: value, ..w }),
        forall|w: TuiLoggerWidget<'_>, value: Style, r: TuiLoggerWidget<'_>| #[trigger]
            call_ensures(TuiLoggerWidget::style_error, (w, value), r) ==> r == (TuiLoggerWidget { style_error: Some(value), ..w }),
        forall|w: TuiLoggerWidget<'_>, value: Style, r: TuiLoggerWidget<'_>| #[trigger]
            call_ensures(TuiLoggerWidget::style_warn, (w, value), r) ==> r == (TuiLoggerWidget { style_warn: Some(value), ..w }),
        forall|w: TuiLoggerWidget<'_>, value: Style, r: TuiLoggerWidget<'_>| #[trigger]
            call_ensures(TuiLoggerWidget::style_info, (w, value), r) ==> r == (TuiLoggerWidget { style_info: Some(value), ..w }),
        forall|w: TuiLoggerWidget<'_>, value: Style, r: TuiLoggerWidget<'_>| #[trigger]
            call_ensures(TuiLoggerWidget::style_trace, (w, value), r) ==> r == (TuiLoggerWidget { style_trace: Some(value), ..w }),
        forall|w: TuiLoggerWidget<'_>, value: Style, r: TuiLoggerWidget<'_>| #[trigger]
            call_ensures(TuiLoggerWidget::style_debug, (w, value), r) ==> r == (TuiLoggerWidget { style_debug: Some(value), ..w }),
        forall|w: TuiLoggerWidget<'_>, value: char, r: TuiLoggerWidget<'_>| #[trigger]
            call_ensures(TuiLoggerWidget::output_separator, (w, value), r) ==> r == (TuiLoggerWidget { format_separator: value, ..w }),
        forall|w: TuiLoggerWidget<'_>, value: Option<String>, r: TuiLoggerWidget<'_>| #[trigger]
            call_ensures(TuiLoggerWidget::output_timestamp, (w, value), r) ==> r == (TuiLoggerWidget { format_timestamp: value, ..w }),
        forall|w: TuiLoggerWidget<'_>, value: Option<TuiLoggerLevelOutput>, r: TuiLoggerWidget<'_>| #[trigger]
            call_ensures(TuiLoggerWidget::output_level, (w, value), r) ==> r == (TuiLoggerWidget { format_output_level: value, ..w }),
        forall|w: TuiLoggerWidget<'_>, value: bool, r: TuiLoggerWidget<'_>| #[trigger]
            call_ensures(TuiLoggerWidget::output_target, (w, value), r) ==> r == (TuiLoggerWidget { format_output_target: value, ..w }),
        forall|w: TuiLoggerWidget<'_>, value: bool, r: TuiLoggerWidget<'_>| #[trigger]
            call_ensures(TuiLoggerWidget::output_file, (w, value), r) ==> r == (TuiLoggerWidget { format_output_file: value, ..w }),
        forall|w: TuiLoggerWidget<'_>, value: bool, r: TuiLoggerWidget<'_>| #[trigger]
            call_ensures(TuiLoggerWidget::output_line, (w, value), r) ==> r == (TuiLoggerWidget { format_output_line: value, ..w }),
{
}

/// Without settings, the log is plain and shows all fields, separated by colons, with the time in
/// hours, minutes and seconds and the levels in full.
pub proof fn law_log_defaults()
    ensures
        forall|w: TuiLoggerWidget<'_>| #[trigger]
            call_ensures(TuiLoggerWidget::default, (), w) ==> {
                &&& w.block is None && w.style == style_of(0)
                &&& w.style_error is None && w.style_warn is None && w.style_info is None
                &&& w.style_debug is None && w.style_trace is None
                &&& w.format_separator == ':'
                &&& w.format_timestamp is Some && w.format_timestamp.unwrap()@ == "%H:%M:%S"@
                &&& w.format_output_level == Some(TuiLoggerLevelOutput::Long)
                &&& w.format_output_target && w.format_output_file && w.format_output_line
            },
{
}

/// The log goes through all events that are there, the newest first, and leaves nothing out of
/// one.
pub proof fn law_all_events_are_gone_through(events: Seq<ExtLogRecord>, i: int, lines: Seq<LogLine>)
    ensures
        newest_first(events).len() == events.len(),
        0 <= i < events.len() ==> ({
            let evt = events[events.len() - 1 - i];
            newest_first(events)[i] == (EventView {
                timestamp: evt.timestamp,
                level: evt.level,
                target: evt.target@,
                file: evt.file@,
                line: evt.line,
                msg: evt.msg@,
            })
        }),
        line_views(lines).len() == lines.len(),
        0 <= i < lines.len() ==> line_views(lines)[i] == (LineView {
            style: lines[i].style,
            indented: lines[i].indented,
            text: lines[i].text@,
        }),
{
}

/// Rows can be placed exactly if each of them, where it stands from the top or, in the history,
/// from the bottom, has coordinates.
pub proof fn law_rows_need_coordinates(rows: Seq<LineView>, in_history: bool, area: Rect)
    requires
        rows.len() <= area.height,
    ensures
        TuiLoggerWidget::in_range(rows, in_history, area) <==> {
            &&& rows.len() == 0 || area.y + (if in_history {
                area.height as int
            } else {
                rows.len() as int
            }) - 1 <= 65535
            &&& area.x + 9 <= 65535 || forall|i: int|
                0 <= i < rows.len() ==> !(#[trigger] rows[i]).indented
        },
{
    if TuiLoggerWidget::in_range(rows, in_history, area) && rows.len() > 0 {
        assert(TuiLoggerWidget::row_x(rows[rows.len() - 1], area) <= u16::MAX);
    }
}

/// `collect` finds the lines of the page and the ends of the pages next to it, from which `layout`
/// takes where the keys for paging lead.
pub proof fn law_collected_page_is_laid_out(
    widget: TuiLoggerWidget<'_>,
    events: &CircularBuffer<ExtLogRecord>,
    area: Rect,
)
    requires
        area.width >= 13,
        area.height >= 1,
    ensures
        forall|
            st: &mut TuiWidgetInnerState,
            laid: Option<Vec<Draw>>,
            page: Option<LogPage>,
            height: usize,
        |
            (height == area.height && #[trigger] call_ensures(
                TuiLoggerWidget::layout,
                (&widget, st, events, area),
                laid,
            ) && #[trigger] call_ensures(
                TuiLoggerWidget::collect,
                (&widget, &*st, events, height),
                page,
            )) ==> {
                &&& page is None ==> laid is None
                &&& laid is Some ==> final(st).opt_timestamp_next_page == page.unwrap().next_page
                &&& laid is Some && page.unwrap().prev_page is Some
                    ==> final(st).opt_timestamp_prev_page == page.unwrap().prev_page
                &&& laid is Some && page.unwrap().prev_page is None
                    ==> final(st).opt_timestamp_prev_page == st.opt_timestamp_bottom
                &&& laid is Some ==> Some(draw_views(laid.unwrap()@)) == Some(
                    widget.placed(
                        latest(
                            TuiLoggerWidget::all_rows(
                                line_views(page.unwrap().lines@),
                                area.width as nat,
                            ),
                            area.height as nat,
                        ),
                        st.opt_timestamp_bottom is Some,
                        area,
                    ),
                )
            },
{
}

} // verus!
