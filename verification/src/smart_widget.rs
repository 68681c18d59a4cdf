//! The combination of the log and the list of targets.

use crate::config::byte_len;
use crate::config::law_widest_is_a_width;
use crate::config::merged;
use crate::config::target_list;
use crate::config::widest;
use crate::config::widest_name;
use crate::log_widget::TuiLoggerLevelOutput;
use crate::log_widget::TuiLoggerWidget;
use crate::logger::TuiLoggerInner;
use crate::screen::all_drawn;
use crate::screen::area_of;
use crate::screen::backdrop;
use crate::screen::backdrop_fits;
use crate::screen::buffer_area;
use crate::screen::buffer_cells;
use crate::screen::can_draw_all;
use crate::screen::can_title;
use crate::screen::content_area;
use crate::screen::extend_line;
use crate::screen::frame;
use crate::screen::framed;
use crate::screen::is_whole;
use crate::screen::line_extended;
use crate::screen::line_from;
use crate::screen::line_of;
use crate::screen::split_columns;
use crate::screen::style_of;
use crate::screen::style_reversed;
use crate::screen::style_with;
use crate::screen::title_fits;
use crate::screen::two_columns;
use crate::screen::BorderType;
use crate::screen::Rect;
use crate::state::law_merge_idempotent;
use crate::state::StateView;
use crate::state::TuiWidgetInnerState;
use crate::target_widget::TuiLoggerTargetWidget;
use crate::text::opt_text;
use ratatui::buffer::Buffer;
use ratatui::style::Style;
use ratatui::text::Line;
use vstd::prelude::*;

verus! {

/// The columns beside a target: a mark for each level, a colon, and the borders.
pub const LIST_MARGIN: u16 = 8;

/// The least width of the log beside the list of targets.
pub const LOG_MIN_WIDTH: u16 = 10;

/// The Smart Widget combines the TuiLoggerWidget and the TuiLoggerTargetWidget
/// into a nice combo, where the TuiLoggerTargetWidget can be shown/hidden.
///
/// In the title the number of logging messages/s in the whole buffer is shown.
pub struct TuiLoggerSmartWidget<'a> {
    pub title_log: Line<'a>,
    pub title_target: Line<'a>,
    pub style: Option<Style>,
    pub border_style: Style,
    pub border_type: BorderType,
    pub highlight_style: Option<Style>,
    pub style_error: Option<Style>,
    pub style_warn: Option<Style>,
    pub style_debug: Option<Style>,
    pub style_trace: Option<Style>,
    pub style_info: Option<Style>,
    pub style_show: Option<Style>,
    pub style_hide: Option<Style>,
    pub style_off: Option<Style>,
    pub format_separator: Option<char>,
    pub format_timestamp: Option<Option<String>>,
    pub format_output_level: Option<Option<TuiLoggerLevelOutput>>,
    pub format_output_target: Option<bool>,
    pub format_output_file: Option<bool>,
    pub format_output_line: Option<bool>,
}

/// What is added to the title of the log for a number of messages per second.
pub open spec fn rate_text(rate: Seq<char>) -> Seq<char> {
    " [log="@ + rate + "/s]"@
}

/// A column's width: that of the widest target in 16 bits, and what stands beside it.
pub open spec fn column_width(widest: usize) -> int {
    widest as int % 0x10000 + LIST_MARGIN
}

/// The state after it took over the targets of the logger.
pub open spec fn with_merged_levels(
    s: StateView,
    inner: &TuiLoggerInner,
) -> StateView {
    StateView { levels: merged(s.levels, inner.targets@), ..s }
}

/// What the two widgets show side by side, and the state that is left.
pub open spec fn columns_drawn(
    target: TuiLoggerTargetWidget<'_>,
    log: TuiLoggerWidget<'_>,
    inner: TuiLoggerInner,
    columns: (Rect, Rect),
    before: (StateView, Buffer),
    after: (StateView, Buffer),
    drawn: bool,
) -> bool {
    let whole = buffer_area(before.1);
    let list_area = content_area(target.block, columns.0);
    let log_area = content_area(log.block, columns.1);
    let list = target.list(before.0, inner.targets@, inner.default, list_area);
    let can_list = list is Some && can_draw_all(whole, list.unwrap());
    let listed = TuiLoggerTargetWidget::laid_out(before.0, inner.targets@, list_area);
    let list_cells = all_drawn(
        whole,
        backdrop(whole, buffer_cells(before.1), columns.0, target.style, target.block),
        list.unwrap(),
    );
    let listing = log.listing(listed, inner.events@, log_area);
    &&& columns.0.wf() ==> list_area.wf()
    &&& can_list && columns.1.wf() ==> log_area.wf()
    &&& drawn <==> can_list && listing is Some && can_draw_all(whole, listing.unwrap())
    &&& !can_list ==> after == (listed, before.1)
    &&& can_list ==> after.0 == log.laid_out(listed, inner.events@, log_area)
    &&& can_list && !drawn ==> buffer_cells(after.1) == list_cells
    &&& drawn ==> buffer_cells(after.1) == all_drawn(
        whole,
        backdrop(whole, list_cells, columns.1, log.style, log.block),
        listing.unwrap(),
    )
}

/// What the log shows alone, and the state that is left.
pub open spec fn log_drawn(
    log: TuiLoggerWidget<'_>,
    inner: TuiLoggerInner,
    area: Rect,
    before: (StateView, Buffer),
    after: (StateView, Buffer),
    drawn: bool,
) -> bool {
    let whole = buffer_area(before.1);
    let log_area = content_area(log.block, area);
    let listing = log.listing(before.0, inner.events@, log_area);
    &&& area.wf() ==> log_area.wf()
    &&& drawn <==> listing is Some && can_draw_all(whole, listing.unwrap())
    &&& after.0 == log.laid_out(before.0, inner.events@, log_area)
    &&& !drawn ==> after.1 == before.1
    &&& drawn ==> buffer_cells(after.1) == all_drawn(
        whole,
        backdrop(whole, buffer_cells(before.1), area, log.style, log.block),
        listing.unwrap(),
    )
}

/// Draw the list of targets and the log side by side. The result is false if the list or the log
/// cannot be drawn; what cannot be drawn leaves the buffer as it was.
pub fn render_columns(
    target: TuiLoggerTargetWidget<'_>,
    log: TuiLoggerWidget<'_>,
    state: &mut TuiWidgetInnerState,
    inner: &TuiLoggerInner,
    columns: (Rect, Rect),
    buf: &mut Buffer,
) -> (r: bool)
    requires
        old(state).wf(),
        inner.wf(),
        backdrop_fits(target.block, buffer_area(*old(buf)), columns.0),
        backdrop_fits(log.block, buffer_area(*old(buf)), columns.1),
        is_whole(*old(buf)),
    ensures
        final(state).wf(),
        is_whole(*final(buf)),
        buffer_area(*final(buf)) == buffer_area(*old(buf)),
        columns_drawn(
            target,
            log,
            *inner,
            columns,
            (old(state)@, *old(buf)),
            (final(state)@, *final(buf)),
            r,
        ),
{
    if !target.render(state, inner, columns.0, buf) {
        return false;
    }
    log.render(state, &inner.events, columns.1, buf)
}

impl<'a> TuiLoggerSmartWidget<'a> {
    /// The title of the log, with the number of messages per second.
    pub open spec fn full_title(&self, rate: Seq<char>) -> Line<'static> {
        line_extended(self.title_log, rate_text(rate))
    }

    /// `log` is the log with the settings of this widget, and the defaults for what is not set.
    pub open spec fn sets_up_log(&self, rate: Seq<char>, log: TuiLoggerWidget<'_>) -> bool {
        &&& log.block == Some(framed(self.full_title(rate), self.border_style, self.border_type))
        &&& log.style == self.style.unwrap_or(style_of(0))
        &&& log.style_error == self.style_error
        &&& log.style_warn == self.style_warn
        &&& log.style_info == self.style_info
        &&& log.style_debug == self.style_debug
        &&& log.style_trace == self.style_trace
        &&& log.format_separator == self.format_separator.unwrap_or(':')
        &&& match self.format_timestamp {
            Some(fmt) => log.format_timestamp == fmt,
            None => opt_text(log.format_timestamp) == Some("%H:%M:%S"@),
        }
        &&& log.format_output_level == self.format_output_level.unwrap_or(
            Some(TuiLoggerLevelOutput::Long),
        )
        &&& log.format_output_target == self.format_output_target.unwrap_or(true)
        &&& log.format_output_file == self.format_output_file.unwrap_or(true)
        &&& log.format_output_line == self.format_output_line.unwrap_or(true)
    }

    /// `target` is the list with the settings of this widget, and the defaults for what is not
    /// set.
    pub open spec fn sets_up_target(&self, target: TuiLoggerTargetWidget<'_>) -> bool {
        let plain = style_of(0);
        &&& target.block == Some(framed(self.title_target, self.border_style, self.border_type))
        &&& target.style == self.style.unwrap_or(plain)
        &&& target.highlight_style == self.highlight_style.unwrap_or(style_reversed(plain))
        &&& target.style_off == self.style_off
        &&& target.style_hide == self.style_hide.unwrap_or(plain)
        &&& target.style_show == self.style_show.unwrap_or(style_reversed(plain))
    }

    /// The list and the log with the settings of this widget, and the defaults for what is not
    /// set.
    pub fn widgets(self, rate: &str) -> (r: (TuiLoggerTargetWidget<'a>, TuiLoggerWidget<'a>))
        ensures
            self.sets_up_target(r.0),
            self.sets_up_log(rate@, r.1),
            forall|whole: Rect, area: Rect|
                title_fits(self.title_target, whole, area) ==> #[trigger] backdrop_fits(
                    r.0.block,
                    whole,
                    area,
                ),
            forall|whole: Rect, area: Rect|
                title_fits(self.full_title(rate@), whole, area) ==> #[trigger] backdrop_fits(
                    r.1.block,
                    whole,
                    area,
                ),
    {
        let title_log: Line<'a> = self.title_with_rate(rate);
        let target = TuiLoggerTargetWidget::default()
            .block(frame(self.title_target, self.border_style, self.border_type))
            .opt_style(self.style)
            .opt_highlight_style(self.highlight_style)
            .opt_style_off(self.style_off)
            .opt_style_hide(self.style_hide)
            .opt_style_show(self.style_show);
        let log = TuiLoggerWidget::default()
            .block(frame(title_log, self.border_style, self.border_type))
            .opt_style(self.style)
            .opt_style_error(self.style_error)
            .opt_style_warn(self.style_warn)
            .opt_style_info(self.style_info)
            .opt_style_debug(self.style_debug)
            .opt_style_trace(self.style_trace)
            .opt_output_separator(self.format_separator)
            .opt_output_timestamp(self.format_timestamp)
            .opt_output_level(self.format_output_level)
            .opt_output_target(self.format_output_target)
            .opt_output_file(self.format_output_file)
            .opt_output_line(self.format_output_line);
        (target, log)
    }

    /// The title of the log, with the number of messages per second.
    fn title_with_rate(&self, rate: &str) -> (r: Line<'a>)
        ensures
            r == self.full_title(rate@),
    {
        let mut text: String = " [log=".to_owned();
        text.append(rate);
        text.append("/s]");
        extend_line(&self.title_log, text.as_str())
    }

    /// Take over the targets of the logger, and find the width of the column for the list. There
    /// is no result if it is no number of 16 bits.
    pub fn list_width(state: &mut TuiWidgetInnerState, inner: &TuiLoggerInner) -> (r: Option<u16>)
        requires
            old(state).wf(),
            inner.wf(),
        ensures
            final(state).wf(),
            final(state)@ == with_merged_levels(old(state)@, inner),
            ({
                let width = column_width(
                    widest(target_list(final(state)@.levels, final(state)@.hide_off)),
                );
                r == if width <= u16::MAX {
                    Some(width as u16)
                } else {
                    None
                }
            }),
    {
        state.config.merge(&inner.targets);
        let names: Vec<String> = state.config.targets(state.hide_off);
        let width: u16 = (widest_name(&names) % 0x10000) as u16;
        if width <= u16::MAX - LIST_MARGIN {
            Some(width + LIST_MARGIN)
        } else {
            None
        }
    }

    /// Whether the titles can be drawn in the frames of the widget in an area of a buffer of area
    /// `whole`: that of the log alone if the list is hidden, and otherwise both, each in its column.
    /// A list that is too wide has no columns.
    pub open spec fn titles_fit(
        &self,
        rate: Seq<char>,
        s: StateView,
        inner: &TuiLoggerInner,
        whole: Rect,
        area: Rect,
    ) -> bool {
        let width = Self::wanted_width(s, inner);
        let columns = two_columns(area, width as u16, LOG_MIN_WIDTH);
        if s.hide_target {
            title_fits(self.full_title(rate), whole, area)
        } else {
            width <= u16::MAX ==> title_fits(self.title_target, whole, columns.0) && title_fits(
                self.full_title(rate),
                whole,
                columns.1,
            )
        }
    }

    /// The width of the column for the list, once the targets of the logger were taken over.
    pub open spec fn wanted_width(s: StateView, inner: &TuiLoggerInner) -> int {
        column_width(widest(target_list(with_merged_levels(s, inner).levels, s.hide_off)))
    }

    /// What the widget shows, and the state that is left: the log alone if the list is hidden, and
    /// otherwise, unless the list is too wide, the list and the log side by side.
    pub open spec fn shown(
        &self,
        rate: Seq<char>,
        inner: TuiLoggerInner,
        area: Rect,
        before: (StateView, Buffer),
        after: (StateView, Buffer),
        drawn: bool,
    ) -> bool {
        let s = with_merged_levels(before.0, &inner);
        let width = Self::wanted_width(before.0, &inner);
        let columns = two_columns(area, width as u16, LOG_MIN_WIDTH);
        if before.0.hide_target {
            exists|log: TuiLoggerWidget<'a>| #[trigger]
                self.sets_up_log(rate, log) && log_drawn(log, inner, area, before, after, drawn)
        } else if width > u16::MAX {
            !drawn && after == (s, before.1)
        } else {
            exists|target: TuiLoggerTargetWidget<'a>, log: TuiLoggerWidget<'a>|
                {
                    &&& #[trigger] self.sets_up_target(target)
                    &&& #[trigger] self.sets_up_log(rate, log)
                    &&& columns_drawn(target, log, inner, columns, (s, before.1), after, drawn)
                }
        }
    }

    /// Draw the widget in an area of a buffer, given the number of messages per second as text.
    /// The result is false if the log or, unless it is hidden, the list cannot be drawn.
    pub fn render(
        self,
        rate: &str,
        state: &mut TuiWidgetInnerState,
        inner: &TuiLoggerInner,
        area: Rect,
        buf: &mut Buffer,
    ) -> (r: bool)
        requires
            old(state).wf(),
            inner.wf(),
            is_whole(*old(buf)),
            self.titles_fit(rate@, old(state)@, inner, buffer_area(*old(buf)), area),
        ensures
            final(state).wf(),
            is_whole(*final(buf)),
            buffer_area(*final(buf)) == buffer_area(*old(buf)),
            self.shown(
                rate@,
                *inner,
                area,
                (old(state)@, *old(buf)),
                (final(state)@, *final(buf)),
                r,
            ),
    {
        let hide_target: bool = state.hide_target;
        let (target, log): (TuiLoggerTargetWidget<'a>, TuiLoggerWidget<'a>) = self.widgets(rate);
        if hide_target {
            log.render(state, &inner.events, area, buf)
        } else {
            match Self::list_width(state, inner) {
                Some(width) => {
                    let columns: (Rect, Rect) = Self::columns(area, width);
                    render_columns(target, log, state, inner, columns, buf)
                },
                None => false,
            }
        }
    }

    /// The columns for the list, of the given width, and for the log.
    pub fn columns(area: Rect, width: u16) -> (r: (Rect, Rect))
        ensures
            r == two_columns(area, width, LOG_MIN_WIDTH),
            area.wf() ==> r.0.wf() && r.1.wf(),
    {
        split_columns(area, width, LOG_MIN_WIDTH)
    }

    /// Draw the widget like `render`, if its titles can be drawn. There is no result if they
    /// cannot; the buffer is then left as it was, and the state, unless the list is hidden, takes
    /// over the targets of the logger.
    pub fn try_render(
        self,
        rate: &str,
        state: &mut TuiWidgetInnerState,
        inner: &TuiLoggerInner,
        area: Rect,
        buf: &mut Buffer,
    ) -> (r: Option<bool>)
        requires
            old(state).wf(),
            inner.wf(),
            is_whole(*old(buf)),
        ensures
            final(state).wf(),
            is_whole(*final(buf)),
            buffer_area(*final(buf)) == buffer_area(*old(buf)),
            r is Some <==> self.titles_fit(
                rate@,
                old(state)@,
                inner,
                buffer_area(*old(buf)),
                area,
            ),
            r matches Some(drawn) ==> self.shown(
                rate@,
                *inner,
                area,
                (old(state)@, *old(buf)),
                (final(state)@, *final(buf)),
                drawn,
            ),
            r is None ==> *final(buf) == *old(buf),
            r is None ==> final(state)@ == if old(state)@.hide_target {
                old(state)@
            } else {
                with_merged_levels(old(state)@, inner)
            },
    {
        let ghost before = state@;
        let whole: Rect = area_of(buf);
        let title_log: Line<'a> = self.title_with_rate(rate);
        let fits: bool = if state.hide_target {
            can_title(&title_log, whole, area)
        } else {
            match Self::list_width(state, inner) {
                Some(width) => {
                    let columns: (Rect, Rect) = Self::columns(area, width);
                    can_title(&self.title_target, whole, columns.0) && can_title(
                        &title_log,
                        whole,
                        columns.1,
                    )
                },
                None => true,
            }
        };
        proof {
            law_merge_idempotent(before.levels, inner.targets@);
        }
        if fits {
            Some(self.render(rate, state, inner, area, buf))
        } else {
            None
        }
    }

    pub fn highlight_style(self, style: Style) -> (r: Self)
        ensures
            r == (TuiLoggerSmartWidget { highlight_style: Some(style), ..self }),
    {
        TuiLoggerSmartWidget { highlight_style: Some(style), ..self }
    }

    pub fn border_style(self, style: Style) -> (r: Self)
        ensures
            r == (TuiLoggerSmartWidget { border_style: style, ..self }),
    {
        TuiLoggerSmartWidget { border_style: style, ..self }
    }

    pub fn border_type(self, border_type: BorderType) -> (r: Self)
        ensures
            r == (TuiLoggerSmartWidget { border_type, ..self }),
    {
        TuiLoggerSmartWidget { border_type, ..self }
    }

    pub fn style(self, style: Style) -> (r: Self)
        ensures
            r == (TuiLoggerSmartWidget { style: Some(style), ..self }),
    {
        TuiLoggerSmartWidget { style: Some(style), ..self }
    }

    pub fn style_error(self, style: Style) -> (r: Self)
        ensures
            r == (TuiLoggerSmartWidget { style_error: Some(style), ..self }),
    {
        TuiLoggerSmartWidget { style_error: Some(style), ..self }
    }

    pub fn style_warn(self, style: Style) -> (r: Self)
        ensures
            r == (TuiLoggerSmartWidget { style_warn: Some(style), ..self }),
    {
        TuiLoggerSmartWidget { style_warn: Some(style), ..self }
    }

    pub fn style_info(self, style: Style) -> (r: Self)
        ensures
            r == (TuiLoggerSmartWidget { style_info: Some(style), ..self }),
    {
        TuiLoggerSmartWidget { style_info: Some(style), ..self }
    }

    pub fn style_trace(self, style: Style) -> (r: Self)
        ensures
            r == (TuiLoggerSmartWidget { style_trace: Some(style), ..self }),
    {
        TuiLoggerSmartWidget { style_trace: Some(style), ..self }
    }

    pub fn style_debug(self, style: Style) -> (r: Self)
        ensures
            r == (TuiLoggerSmartWidget { style_debug: Some(style), ..self }),
    {
        TuiLoggerSmartWidget { style_debug: Some(style), ..self }
    }

    pub fn style_off(self, style: Style) -> (r: Self)
        ensures
            r == (TuiLoggerSmartWidget { style_off: Some(style), ..self }),
    {
        TuiLoggerSmartWidget { style_off: Some(style), ..self }
    }

    pub fn style_hide(self, style: Style) -> (r: Self)
        ensures
            r == (TuiLoggerSmartWidget { style_hide: Some(style), ..self }),
    {
        TuiLoggerSmartWidget { style_hide: Some(style), ..self }
    }

    pub fn style_show(self, style: Style) -> (r: Self)
        ensures
            r == (TuiLoggerSmartWidget { style_show: Some(style), ..self }),
    {
        TuiLoggerSmartWidget { style_show: Some(style), ..self }
    }

    /// Separator character between field.
    /// Default is ':'
    pub fn output_separator(self, sep: char) -> (r: Self)
        ensures
            r == (TuiLoggerSmartWidget { format_separator: Some(sep), ..self }),
    {
        TuiLoggerSmartWidget { format_separator: Some(sep), ..self }
    }

    /// The format string can be defined as described in
    /// <https://docs.rs/chrono/0.4.19/chrono/format/strftime/index.html>
    ///
    /// If called with None, timestamp is not included in output.
    ///
    /// Default is %H:%M:%S
    pub fn output_timestamp(self, fmt: Option<String>) -> (r: Self)
        ensures
            r == (TuiLoggerSmartWidget { format_timestamp: Some(fmt), ..self }),
    {
        TuiLoggerSmartWidget { format_timestamp: Some(fmt), ..self }
    }

    /// Possible values are
    /// - TuiLoggerLevelOutput::Long        => DEBUG/TRACE/...
    /// - TuiLoggerLevelOutput::Abbreviated => D/T/...
    ///
    /// If called with None, level is not included in output.
    ///
    /// Default is Long
    pub fn output_level(self, level: Option<TuiLoggerLevelOutput>) -> (r: Self)
        ensures
            r == (TuiLoggerSmartWidget { format_output_level: Some(level), ..self }),
    {
        TuiLoggerSmartWidget { format_output_level: Some(level), ..self }
    }

    /// Enables output of target field of event
    ///
    /// Default is true
    pub fn output_target(self, enabled: bool) -> (r: Self)
        ensures
            r == (TuiLoggerSmartWidget { format_output_target: Some(enabled), ..self }),
    {
        TuiLoggerSmartWidget { format_output_target: Some(enabled), ..self }
    }

    /// Enables output of file field of event
    ///
    /// Default is true
    pub fn output_file(self, enabled: bool) -> (r: Self)
        ensures
            r == (TuiLoggerSmartWidget { format_output_file: Some(enabled), ..self }),
    {
        TuiLoggerSmartWidget { format_output_file: Some(enabled), ..self }
    }

    /// Enables output of line field of event
    ///
    /// Default is true
    pub fn output_line(self, enabled: bool) -> (r: Self)
        ensures
            r == (TuiLoggerSmartWidget { format_output_line: Some(enabled), ..self }),
    {
        TuiLoggerSmartWidget { format_output_line: Some(enabled), ..self }
    }

    pub fn title_target(self, title: Line<'a>) -> (r: Self)
        ensures
            r == (TuiLoggerSmartWidget { title_target: title, ..self }),
    {
        TuiLoggerSmartWidget { title_target: title, ..self }
    }

    pub fn title_log(self, title: Line<'a>) -> (r: Self)
        ensures
            r == (TuiLoggerSmartWidget { title_log: title, ..self }),
    {
        TuiLoggerSmartWidget { title_log: title, ..self }
    }
}

impl<'a> Default for TuiLoggerSmartWidget<'a> {
    fn default() -> (r: TuiLoggerSmartWidget<'a>)
        ensures
            r.title_log == line_of("Tui Log"@),
            r.title_target == line_of("Tui Target Selector"@),
            r.style is None,
            r.border_style == style_of(0),
            r.border_type == BorderType::Plain,
            r.highlight_style is None,
            r.style_error is None,
            r.style_warn is None,
            r.style_debug is None,
            r.style_trace is None,
            r.style_info is None,
            r.style_show is None,
            r.style_hide is None,
            r.style_off is None,
            r.format_separator is None,
            r.format_timestamp is None,
            r.format_output_level is None,
            r.format_output_target is None,
            r.format_output_file is None,
            r.format_output_line is None,
    {
        TuiLoggerSmartWidget {
            title_log: line_from("Tui Log"),
            title_target: line_from("Tui Target Selector"),
            style: None,
            border_style: style_with(0),
            border_type: BorderType::Plain,
            highlight_style: None,
            style_error: None,
            style_warn: None,
            style_debug: None,
            style_trace: None,
            style_info: None,
            style_show: None,
            style_hide: None,
            style_off: None,
            format_separator: None,
            format_timestamp: None,
            format_output_level: None,
            format_output_target: None,
            format_output_file: None,
            format_output_line: None,
        }
    }
}

/// While the list is hidden, the widget is the log over the whole area. Nothing of the list is
/// shown, and nothing in the state changes but where the pages next to the one shown end.
pub proof fn law_hidden_list_leaves_log_alone(
    widget: TuiLoggerSmartWidget<'_>,
    rate: Seq<char>,
    inner: TuiLoggerInner,
    area: Rect,
    before: (StateView, Buffer),
    after: (StateView, Buffer),
    drawn: bool,
)
    requires
        before.0.hide_target,
        widget.shown(rate, inner, area, before, after, drawn),
    ensures
        exists|log: TuiLoggerWidget<'_>| #[trigger]
            widget.sets_up_log(rate, log) && log_drawn(log, inner, area, before, after, drawn),
        after.0 == (StateView {
            timestamp_next_page: after.0.timestamp_next_page,
            timestamp_prev_page: after.0.timestamp_prev_page,
            ..before.0
        }),
{
}

/// Where there is room for both, the list stands on the left, as wide as its widest target and
/// what stands beside it, and the log has all columns that remain.
pub proof fn law_list_and_log_share_area(
    widget: TuiLoggerSmartWidget<'_>,
    rate: Seq<char>,
    inner: TuiLoggerInner,
    area: Rect,
    before: (StateView, Buffer),
    after: (StateView, Buffer),
    drawn: bool,
)
    requires
        area.wf(),
        !before.0.hide_target,
        widest(
            target_list(with_merged_levels(before.0, &inner).levels, before.0.hide_off),
        ) + LIST_MARGIN + LOG_MIN_WIDTH <= area.width,
        widget.shown(rate, inner, area, before, after, drawn),
    ensures
        ({
            let s = with_merged_levels(before.0, &inner);
            let width = widest(target_list(s.levels, s.hide_off)) + LIST_MARGIN;
            let left = Rect { width: width as u16, ..area };
            let right = Rect {
                x: (area.x + width) as u16,
                width: (area.width - width) as u16,
                ..area
            };
            exists|target: TuiLoggerTargetWidget<'_>, log: TuiLoggerWidget<'_>|
                {
                    &&& #[trigger] widget.sets_up_target(target)
                    &&& #[trigger] widget.sets_up_log(rate, log)
                    &&& columns_drawn(
                        target,
                        log,
                        inner,
                        (left, right),
                        (s, before.1),
                        after,
                        drawn,
                    )
                }
        }),
{
}

/// Each setting of the widget changes what it is named after and nothing else.
pub proof fn law_smart_settings_are_apart()
    ensures
        forall|w: TuiLoggerSmartWidget<'_>, value: Style, r: TuiLoggerSmartWidget<'_>| #[trigger]
            call_ensures(TuiLoggerSmartWidget::highlight_style, (w, value), r) ==> r == (TuiLoggerSmartWidget { highlight_style: Some(value), ..w }),
        forall|w: TuiLoggerSmartWidget<'_>, value: Style, r: TuiLoggerSmartWidget<'_>| #[trigger]
            call_ensures(TuiLoggerSmartWidget::border_style, (w, value), r) ==> r == (TuiLoggerSmartWidget { border_style: value, ..w }),
        forall|w: TuiLoggerSmartWidget<'_>, value: BorderType, r: TuiLoggerSmartWidget<'_>| #[trigger]
            call_ensures(TuiLoggerSmartWidget::border_type, (w, value), r) ==> r == (TuiLoggerSmartWidget { border_type: value, ..w }),
        forall|w: TuiLoggerSmartWidget<'_>, value: Style, r: TuiLoggerSmartWidget<'_>| #[trigger]
            call_ensures(TuiLoggerSmartWidget::style, (w, value), r) ==> r == (TuiLoggerSmartWidget { style: Some(value), ..w }),
        forall|w: TuiLoggerSmartWidget<'_>, value: Style, r: TuiLoggerSmartWidget<'_>| #[trigger]
            call_ensures(TuiLoggerSmartWidget::style_error, (w, value), r) ==> r == (TuiLoggerSmartWidget { style_error: Some(value), ..w }),
        forall|w: TuiLoggerSmartWidget<'_>, value: Style, r: TuiLoggerSmartWidget<'_>| #[trigger]
            call_ensures(TuiLoggerSmartWidget::style_warn, (w, value), r) ==> r == (TuiLoggerSmartWidget { style_warn: Some(value), ..w }),
        forall|w: TuiLoggerSmartWidget<'_>, value: Style, r: TuiLoggerSmartWidget<'_>| #[trigger]
            call_ensures(TuiLoggerSmartWidget::style_info, (w, value), r) ==> r == (TuiLoggerSmartWidget { style_info: Some(value), ..w }),
        forall|w: TuiLoggerSmartWidget<'_>, value: Style, r: TuiLoggerSmartWidget<'_>| #[trigger]
            call_ensures(TuiLoggerSmartWidget::style_trace, (w, value), r) ==> r == (TuiLoggerSmartWidget { style_trace: Some(value), ..w }),
        forall|w: TuiLoggerSmartWidget<'_>, value: Style, r: TuiLoggerSmartWidget<'_>| #[trigger]
            call_ensures(TuiLoggerSmartWidget::style_debug, (w, value), r) ==> r == (TuiLoggerSmartWidget { style_debug: Some(value), ..w }),
        forall|w: TuiLoggerSmartWidget<'_>, value: Style, r: TuiLoggerSmartWidget<'_>| #[trigger]
            call_ensures(TuiLoggerSmartWidget::style_off, (w, value), r) ==> r == (TuiLoggerSmartWidget { style_off: Some(value), ..w }),
        forall|w: TuiLoggerSmartWidget<'_>, value: Style, r: TuiLoggerSmartWidget<'_>| #[trigger]
            call_ensures(TuiLoggerSmartWidget::style_hide, (w, value), r) ==> r == (TuiLoggerSmartWidget { style_hide: Some(value), ..w }),
        forall|w: TuiLoggerSmartWidget<'_>, value: Style, r: TuiLoggerSmartWidget<'_>| #[trigger]
            call_ensures(TuiLoggerSmartWidget::style_show, (w, value), r) ==> r == (TuiLoggerSmartWidget { style_show: Some(value), ..w }),
        forall|w: TuiLoggerSmartWidget<'_>, value: char, r: TuiLoggerSmartWidget<'_>| #[trigger]
            call_ensures(TuiLoggerSmartWidget::output_separator, (w, value), r) ==> r == (TuiLoggerSmartWidget { format_separator: Some(value), ..w }),
        forall|w: TuiLoggerSmartWidget<'_>, value: Option<String>, r: TuiLoggerSmartWidget<'_>| #[trigger]
            call_ensures(TuiLoggerSmartWidget::output_timestamp, (w, value), r) ==> r == (TuiLoggerSmartWidget { format_timestamp: Some(value), ..w }),
        forall|w: TuiLoggerSmartWidget<'_>, value: Option<TuiLoggerLevelOutput>, r: TuiLoggerSmartWidget<'_>| #[trigger]
            call_ensures(TuiLoggerSmartWidget::output_level, (w, value), r) ==> r == (TuiLoggerSmartWidget { format_output_level: Some(value), ..w }),
        forall|w: TuiLoggerSmartWidget<'_>, value: bool, r: TuiLoggerSmartWidget<'_>| #[trigger]
            call_ensures(TuiLoggerSmartWidget::output_target, (w, value), r) ==> r == (TuiLoggerSmartWidget { format_output_target: Some(value), ..w }),
        forall|w: TuiLoggerSmartWidget<'_>, value: bool, r: TuiLoggerSmartWidget<'_>| #[trigger]
            call_ensures(TuiLoggerSmartWidget::output_file, (w, value), r) ==> r == (TuiLoggerSmartWidget { format_output_file: Some(value), ..w }),
        forall|w: TuiLoggerSmartWidget<'_>, value: bool, r: TuiLoggerSmartWidget<'_>| #[trigger]
            call_ensures(TuiLoggerSmartWidget::output_line, (w, value), r) ==> r == (TuiLoggerSmartWidget { format_output_line: Some(value), ..w }),
        forall|w: TuiLoggerSmartWidget<'_>, value: Line<'_>, r: TuiLoggerSmartWidget<'_>| #[trigger]
            call_ensures(TuiLoggerSmartWidget::title_target, (w, value), r) ==> r == (TuiLoggerSmartWidget { title_target: value, ..w }),
        forall|w: TuiLoggerSmartWidget<'_>, value: Line<'_>, r: TuiLoggerSmartWidget<'_>| #[trigger]
            call_ensures(TuiLoggerSmartWidget::title_log, (w, value), r) ==> r == (TuiLoggerSmartWidget { title_log: value, ..w }),
{
}

/// The log in the widget has the settings of the widget, each by itself, and the defaults of the
/// log for those that are not set. Its frame has the title of the log, followed by the rate in
/// brackets.
pub proof fn law_log_has_settings(
    w: TuiLoggerSmartWidget<'_>,
    rate: Seq<char>,
    log: TuiLoggerWidget<'_>,
)
    requires
        w.sets_up_log(rate, log),
    ensures
        log.block == Some(
            framed(
                line_extended(w.title_log, " [log="@ + rate + "/s]"@),
                w.border_style,
                w.border_type,
            ),
        ),
        w.style matches Some(style) ==> log.style == style,
        w.style is None ==> log.style == style_of(0),
        log.style_error == w.style_error,
        log.style_warn == w.style_warn,
        log.style_info == w.style_info,
        log.style_debug == w.style_debug,
        log.style_trace == w.style_trace,
        w.format_separator matches Some(sep) ==> log.format_separator == sep,
        w.format_separator is None ==> log.format_separator == ':',
        w.format_timestamp matches Some(fmt) ==> log.format_timestamp == fmt,
        w.format_timestamp is None ==> log.format_timestamp is Some
            && log.format_timestamp.unwrap()@ == "%H:%M:%S"@,
        w.format_output_level matches Some(level) ==> log.format_output_level == level,
        w.format_output_level is None ==> log.format_output_level == Some(
            TuiLoggerLevelOutput::Long,
        ),
        w.format_output_target matches Some(on) ==> log.format_output_target == on,
        w.format_output_target is None ==> log.format_output_target,
        w.format_output_file matches Some(on) ==> log.format_output_file == on,
        w.format_output_file is None ==> log.format_output_file,
        w.format_output_line matches Some(on) ==> log.format_output_line == on,
        w.format_output_line is None ==> log.format_output_line,
{
}

/// The list in the widget has the settings of the widget, each by itself, and the defaults of the
/// list for those that are not set. Its frame has the title of the list.
pub proof fn law_list_has_settings(w: TuiLoggerSmartWidget<'_>, list: TuiLoggerTargetWidget<'_>)
    requires
        w.sets_up_target(list),
    ensures
        list.block == Some(framed(w.title_target, w.border_style, w.border_type)),
        w.style matches Some(style) ==> list.style == style,
        w.style is None ==> list.style == style_of(0),
        w.highlight_style matches Some(style) ==> list.highlight_style == style,
        w.highlight_style is None ==> list.highlight_style == style_reversed(style_of(0)),
        list.style_off == w.style_off,
        w.style_hide matches Some(style) ==> list.style_hide == style,
        w.style_hide is None ==> list.style_hide == style_of(0),
        w.style_show matches Some(style) ==> list.style_show == style,
        w.style_show is None ==> list.style_show == style_reversed(style_of(0)),
{
}

/// `widgets` gives a list and a log with the settings of the widget.
pub proof fn law_widgets_have_settings(w: TuiLoggerSmartWidget<'_>, rate: &str)
    ensures
        forall|r: (TuiLoggerTargetWidget<'_>, TuiLoggerWidget<'_>)| #[trigger]
            call_ensures(TuiLoggerSmartWidget::widgets, (w, rate), r) ==> w.sets_up_target(r.0)
                && w.sets_up_log(rate@, r.1),
        forall|d: TuiLoggerSmartWidget<'_>| #[trigger]
            call_ensures(TuiLoggerSmartWidget::default, (), d) ==> {
                &&& d.title_log == line_of("Tui Log"@)
                &&& d.title_target == line_of("Tui Target Selector"@)
                &&& d.border_style == style_of(0) && d.border_type == BorderType::Plain
                &&& d.style is None && d.highlight_style is None
                &&& d.style_error is None && d.style_warn is None && d.style_info is None
                &&& d.style_debug is None && d.style_trace is None && d.style_off is None
                &&& d.style_show is None && d.style_hide is None
                &&& d.format_separator is None && d.format_timestamp is None
                &&& d.format_output_level is None && d.format_output_target is None
                &&& d.format_output_file is None && d.format_output_line is None
            },
{
}

/// The column for the list has room for each listed target and what stands beside it, and is no
/// wider than one of them needs; without targets it has the room beside them. Its width is that
/// of the targets in 16 bits.
pub proof fn law_list_is_as_wide_as_targets(inner: &TuiLoggerInner, i: int)
    ensures
        forall|st: &mut TuiWidgetInnerState, r: Option<u16>| #[trigger]
            call_ensures(TuiLoggerSmartWidget::list_width, (st, inner), r) ==> {
                let names = target_list(final(st).config@, st.hide_off);
                let room = widest(names) as int;
                &&& final(st)@ == (StateView { levels: merged(st.config@, inner.targets@), ..st@ })
                &&& room <= 65527 ==> r == Some((room + 8) as u16)
                &&& room <= 65527 && 0 <= i < names.len() ==> byte_len(names[i]) + 8 <= r.unwrap()
                &&& 65528 <= room <= 65535 ==> r is None
                &&& names.len() == 0 ==> r == Some(8u16)
            },
        forall|area: Rect, width: u16, r: (Rect, Rect)| #[trigger]
            call_ensures(TuiLoggerSmartWidget::columns, (area, width), r) ==> r == two_columns(
                area,
                width,
                10,
            ),
{
    assert forall|st: &mut TuiWidgetInnerState, r: Option<u16>| #[trigger]
        call_ensures(TuiLoggerSmartWidget::list_width, (st, inner), r) implies ({
        let names = target_list(final(st).config@, st.hide_off);
        &&& 0 <= i < names.len() ==> byte_len(names[i]) <= widest(names)
        &&& names.len() == 0 ==> widest(names) == 0
    }) by {
        law_widest_is_a_width(target_list(final(st).config@, st.hide_off), i);
    }
}

/// Side by side, the list is rendered in the first column and then the log in the second, on the
/// state that the list left: the result, the state and the cells are those of the two renderings
/// one after the other.
pub proof fn law_columns_are_two_renderings(
    target: TuiLoggerTargetWidget<'_>,
    log: TuiLoggerWidget<'_>,
    inner: &TuiLoggerInner,
    columns: (Rect, Rect),
)
    ensures
        forall|
            st: &mut TuiWidgetInnerState,
            buf: &mut Buffer,
            r: bool,
            st1: &mut TuiWidgetInnerState,
            buf1: &mut Buffer,
            r1: bool,
            st2: &mut TuiWidgetInnerState,
            buf2: &mut Buffer,
            r2: bool,
        |
            (#[trigger] call_ensures(render_columns, (target, log, st, inner, columns, buf), r)
                && st1@ == st@ && *buf1 == *buf && #[trigger] call_ensures(
                TuiLoggerTargetWidget::render,
                (target, st1, inner, columns.0, buf1),
                r1,
            ) && st2@ == final(st1)@ && *buf2 == *final(buf1) && #[trigger] call_ensures(
                TuiLoggerWidget::render,
                (log, st2, &inner.events, columns.1, buf2),
                r2,
            )) ==> {
                &&& r <==> r1 && r2
                &&& r1 ==> final(st)@ == final(st2)@ && buffer_cells(*final(buf)) == buffer_cells(
                    *final(buf2),
                )
                &&& !r1 ==> final(st)@ == final(st1)@ && *final(buf) == *buf
            },
{
}

/// With the list hidden, the widget renders as the log with its settings does over the whole area.
pub proof fn law_hidden_list_is_log_rendering(
    inner: TuiLoggerInner,
    log: TuiLoggerWidget<'_>,
    area: Rect,
    before: (StateView, Buffer),
    after: (StateView, Buffer),
    drawn: bool,
)
    requires
        log_drawn(log, inner, area, before, after, drawn),
    ensures
        forall|st: &mut TuiWidgetInnerState, buf: &mut Buffer, r: bool|
            (st@ == before.0 && *buf == before.1 && #[trigger] call_ensures(
                TuiLoggerWidget::render,
                (log, st, &inner.events, area, buf),
                r,
            )) ==> r == drawn && final(st)@ == after.0 && (drawn ==> buffer_cells(*final(buf))
                == buffer_cells(after.1)),
{
}

/// `try_render` gives no result exactly if the title of the log, or, unless it is hidden, that of
/// the list, cannot be drawn in its frame, and shows what `render` shows otherwise.
pub proof fn law_rendering_needs_titles(
    w: TuiLoggerSmartWidget<'_>,
    rate: &str,
    inner: &TuiLoggerInner,
    area: Rect,
)
    ensures
        forall|st: &mut TuiWidgetInnerState, buf: &mut Buffer, r: Option<bool>|
            (#[trigger] call_ensures(
                TuiLoggerSmartWidget::try_render,
                (w, rate, st, inner, area, buf),
                r,
            )) ==> {
                let title = line_extended(w.title_log, " [log="@ + rate@ + "/s]"@);
                let whole = buffer_area(*buf);
                let names = target_list(merged(st.config@, inner.targets@), st.hide_off);
                let width = widest(names) as int % 0x10000 + 8;
                let columns = two_columns(area, width as u16, 10);
                &&& st.hide_target ==> (r is Some <==> title_fits(title, whole, area))
                &&& !st.hide_target && width <= 65535 ==> (r is Some <==> title_fits(
                    w.title_target,
                    whole,
                    columns.0,
                ) && title_fits(title, whole, columns.1))
                &&& !st.hide_target && width > 65535 ==> r == Some(false)
                &&& r is None ==> *final(buf) == *buf
            },
        forall|st: &mut TuiWidgetInnerState, buf: &mut Buffer, r: Option<bool>|
            (#[trigger] call_ensures(
                TuiLoggerSmartWidget::try_render,
                (w, rate, st, inner, area, buf),
                r,
            )) ==> (r matches Some(drawn) ==> w.shown(
                rate@,
                *inner,
                area,
                (st@, *buf),
                (final(st)@, *final(buf)),
                drawn,
            )),
        forall|st: &mut TuiWidgetInnerState, buf: &mut Buffer, drawn: bool|
            (#[trigger] call_ensures(
                TuiLoggerSmartWidget::render,
                (w, rate, st, inner, area, buf),
                drawn,
            )) ==> w.shown(rate@, *inner, area, (st@, *buf), (final(st)@, *final(buf)), drawn),
{
}

/// Unless it is hidden or too wide for 16 bits, the list stands beside the log in every area,
/// however small; a list that is too wide is not drawn, nor is the log.
pub proof fn law_list_stands_beside_log(
    widget: TuiLoggerSmartWidget<'_>,
    rate: Seq<char>,
    inner: TuiLoggerInner,
    area: Rect,
    before: (StateView, Buffer),
    after: (StateView, Buffer),
    drawn: bool,
)
    requires
        !before.0.hide_target,
        widget.shown(rate, inner, area, before, after, drawn),
    ensures
        ({
            let s = StateView { levels: merged(before.0.levels, inner.targets@), ..before.0 };
            let width = widest(target_list(s.levels, s.hide_off)) as int % 0x10000 + 8;
            &&& width > 65535 ==> !drawn && after.0 == s && after.1 == before.1
            &&& width <= 65535 ==> exists|
                target: TuiLoggerTargetWidget<'_>,
                log: TuiLoggerWidget<'_>,
            |
                {
                    &&& #[trigger] widget.sets_up_target(target)
                    &&& #[trigger] widget.sets_up_log(rate, log)
                    &&& columns_drawn(
                        target,
                        log,
                        inner,
                        two_columns(area, width as u16, 10),
                        (s, before.1),
                        after,
                        drawn,
                    )
                }
        }),
{
}

/// What is shown side by side in two columns is what the list and the log render there, one after
/// the other.
pub proof fn law_shown_columns_are_renderings(
    target: TuiLoggerTargetWidget<'_>,
    log: TuiLoggerWidget<'_>,
    inner: TuiLoggerInner,
    columns: (Rect, Rect),
    before: (StateView, Buffer),
    after: (StateView, Buffer),
    drawn: bool,
)
    requires
        columns_drawn(target, log, inner, columns, before, after, drawn),
    ensures
        forall|
            st1: &mut TuiWidgetInnerState,
            buf1: &mut Buffer,
            r1: bool,
            st2: &mut TuiWidgetInnerState,
            buf2: &mut Buffer,
            r2: bool,
        |
            (st1@ == before.0 && *buf1 == before.1 && #[trigger] call_ensures(
                TuiLoggerTargetWidget::render,
                (target, st1, &inner, columns.0, buf1),
                r1,
            ) && st2@ == final(st1)@ && *buf2 == *final(buf1) && #[trigger] call_ensures(
                TuiLoggerWidget::render,
                (log, st2, &inner.events, columns.1, buf2),
                r2,
            )) ==> {
                &&& drawn <==> r1 && r2
                &&& r1 ==> after.0 == final(st2)@ && buffer_cells(after.1) == buffer_cells(
                    *final(buf2),
                )
                &&& !r1 ==> after.0 == final(st1)@ && after.1 == before.1
            },
{
}

} // verus!
