//! The list of targets, with the levels that are recorded and displayed of each.

use crate::config::merged;
use crate::config::target_list;
use crate::level::Level;
use crate::level::LevelFilter;
use crate::logger::recording_level;
use crate::logger::TuiLoggerInner;
use crate::screen::all_drawn;
use crate::screen::area_of;
use crate::screen::backdrop;
use crate::screen::backdrop_fits;
use crate::screen::buffer_area;
use crate::screen::buffer_cells;
use crate::screen::can_draw_all;
use crate::screen::content_area;
use crate::screen::draw_all;
use crate::screen::draw_backdrop;
use crate::screen::draw_views;
use crate::screen::drawable;
use crate::screen::inner_of;
use crate::screen::is_neutral;
use crate::screen::is_whole;
use crate::screen::reversed;
use crate::screen::style_of;
use crate::screen::style_reversed;
use crate::screen::style_with;
use crate::screen::Draw;
use crate::screen::DrawView;
use crate::screen::Rect;
use crate::state::law_selected_is_visible;
use crate::state::list_height;
use crate::state::scrolled;
use crate::state::with_targets;
use crate::state::StateView;
use crate::state::TuiWidgetInnerState;
use crate::text::texts;
use ratatui::buffer::Buffer;
use ratatui::style::Style;
use ratatui::widgets::Block;
use vstd::prelude::*;

verus! {

/// This is the definition for the TuiLoggerTargetWidget,
/// which allows configuration of the logger system and selection of log messages.
pub struct TuiLoggerTargetWidget<'b> {
    pub block: Option<Block<'b>>,
    /// Base style of the widget
    pub style: Style,
    pub style_show: Style,
    pub style_hide: Style,
    pub style_off: Option<Style>,
    pub highlight_style: Style,
}

/// The letter that stands for a level.
pub open spec fn level_letter(level: Level) -> Seq<char> {
    match level {
        Level::Error => "E"@,
        Level::Warn => "W"@,
        Level::Info => "I"@,
        Level::Debug => "D"@,
        Level::Trace => "T"@,
    }
}

/// The letter that stands for a level.
pub fn letter_of(level: Level) -> (r: &'static str)
    ensures
        r@ == level_letter(level),
{
    match level {
        Level::Error => "E",
        Level::Warn => "W",
        Level::Info => "I",
        Level::Debug => "D",
        Level::Trace => "T",
    }
}

/// What is recorded and displayed of a target, and where the selection stands.
pub struct RowLevels {
    pub recorded: LevelFilter,
    pub displayed: LevelFilter,
    /// The target is the selected one.
    pub selected: bool,
    /// Only the selected target is in focus.
    pub focus: bool,
}

impl<'b> TuiLoggerTargetWidget<'b> {
    /// The mark for a level: shown if it is recorded and displayed and in focus, hidden if it is
    /// recorded only, and otherwise in the style for what is off, or blank without one.
    pub open spec fn mark(&self, x: u16, y: u16, level: Level, row: RowLevels) -> DrawView {
        let symbol = level_letter(level);
        if row.recorded.lets_through(level) {
            let lit = row.displayed.lets_through(level) && (!row.focus || row.selected);
            let style = if lit {
                self.style_show
            } else {
                self.style_hide
            };
            DrawView::Letter { x, y, symbol, cell_style: Some(style) }
        } else {
            match self.style_off {
                Some(style) => DrawView::Letter { x, y, symbol, cell_style: Some(style) },
                None => DrawView::Letter { x, y, symbol: " "@, cell_style: None },
            }
        }
    }

    /// One line of the list: a mark for each level, a colon, and the target.
    pub open spec fn row(
        &self,
        left: u16,
        y: u16,
        width: u16,
        target: Seq<char>,
        row: RowLevels,
    ) -> Seq<DrawView> {
        seq![
            self.mark(left, y, Level::Error, row),
            self.mark((left + 1) as u16, y, Level::Warn, row),
            self.mark((left + 2) as u16, y, Level::Info, row),
            self.mark((left + 3) as u16, y, Level::Debug, row),
            self.mark((left + 4) as u16, y, Level::Trace, row),
            DrawView::Text {
                x: (left + 5) as u16,
                y,
                text: ":"@,
                max_width: width as usize,
                style: self.style,
            },
            DrawView::Text {
                x: (left + 6) as u16,
                y,
                text: target,
                max_width: width as usize,
                style: if row.selected {
                    self.highlight_style
                } else {
                    self.style
                },
            },
        ]
    }

    /// The first `n` lines of the list in a state that is up to date. A target that the logger
    /// does not know is recorded with the default level.
    pub open spec fn rows(
        &self,
        s: StateView,
        hot: Map<Seq<char>, LevelFilter>,
        default: LevelFilter,
        area: Rect,
        n: nat,
    ) -> Seq<DrawView>
        decreases n,
    {
        if n == 0 {
            Seq::empty()
        } else {
            let i = n - 1;
            let target = target_list(s.levels, s.hide_off)[i + s.offset];
            self.rows(s, hot, default, area, (n - 1) as nat) + self.row(
                area.x,
                (area.y + i) as u16,
                area.width,
                target,
                RowLevels {
                    recorded: recording_level(hot, default, target),
                    displayed: recording_level(s.levels, default, target),
                    selected: i + s.offset == s.selected,
                    focus: s.focus_selected,
                },
            )
        }
    }

    /// Whether an area is too small for the list.
    pub open spec fn too_small(area: Rect) -> bool {
        area.width < 8 || area.height < 1
    }

    /// The state after the list was laid out in an area.
    pub open spec fn laid_out(
        s: StateView,
        hot: Map<Seq<char>, LevelFilter>,
        area: Rect,
    ) -> StateView {
        if Self::too_small(area) {
            s
        } else {
            scrolled(with_targets(s, hot), area.height as nat)
        }
    }

    /// Whether the places of the first `n` lines are coordinates.
    pub open spec fn in_range(area: Rect, n: nat) -> bool {
        n == 0 || (area.x + 6 <= u16::MAX && area.y + n - 1 <= u16::MAX)
    }

    /// What is drawn of the list in an area, from a state before it was laid out, or nothing if
    /// a line has no coordinates.
    pub open spec fn list(
        &self,
        s: StateView,
        hot: Map<Seq<char>, LevelFilter>,
        default: LevelFilter,
        area: Rect,
    ) -> Option<Seq<DrawView>> {
        if Self::too_small(area) {
            Some(Seq::empty())
        } else {
            let after = Self::laid_out(s, hot, area);
            let shown = list_height(area.height as nat, after.nr_items as nat);
            if Self::in_range(area, shown) {
                Some(self.rows(after, hot, default, area, shown))
            } else {
                None
            }
        }
    }

    fn draw_mark(&self, x: u16, y: u16, level: Level, row: &RowLevels) -> (r: Draw)
        ensures
            r@ == self.mark(x, y, level, *row),
    {
        if row.recorded.allows(level) {
            let style: Style = if row.displayed.allows(level) && (!row.focus || row.selected) {
                self.style_show
            } else {
                self.style_hide
            };
            Draw::Letter { x, y, symbol: letter_of(level).to_owned(), cell_style: Some(style) }
        } else {
            match self.style_off {
                Some(style) => Draw::Letter {
                    x,
                    y,
                    symbol: letter_of(level).to_owned(),
                    cell_style: Some(style),
                },
                None => Draw::Letter { x, y, symbol: " ".to_owned(), cell_style: None },
            }
        }
    }

    fn draw_row(&self, out: &mut Vec<Draw>, left: u16, y: u16, width: u16, target: &str, row: &RowLevels)
        requires
            left + 6 <= u16::MAX,
        ensures
            draw_views(final(out)@) == draw_views(old(out)@) + self.row(
                left,
                y,
                width,
                target@,
                *row,
            ),
    {
        out.push(self.draw_mark(left, y, Level::Error, row));
        out.push(self.draw_mark(left + 1, y, Level::Warn, row));
        out.push(self.draw_mark(left + 2, y, Level::Info, row));
        out.push(self.draw_mark(left + 3, y, Level::Debug, row));
        out.push(self.draw_mark(left + 4, y, Level::Trace, row));
        out.push(
            Draw::Text {
                x: left + 5,
                y,
                text: ":".to_owned(),
                max_width: width as usize,
                style: self.style,
            },
        );
        let style: Style = if row.selected {
            self.highlight_style
        } else {
            self.style
        };
        out.push(
            Draw::Text {
                x: left + 6,
                y,
                text: target.to_owned(),
                max_width: width as usize,
                style,
            },
        );
        assert(draw_views(out@) =~= draw_views(old(out)@) + self.row(left, y, width, target@, *row));
    }

    /// Lay the list out in an area: bring the state up to date with the logger, and say what is
    /// to be drawn. There is no result if a line has no coordinates.
    pub fn layout(
        &self,
        state: &mut TuiWidgetInnerState,
        inner: &TuiLoggerInner,
        area: Rect,
    ) -> (r: Option<Vec<Draw>>)
        requires
            old(state).wf(),
            inner.wf(),
        ensures
            final(state).wf(),
            final(state)@ == Self::laid_out(old(state)@, inner.targets@, area),
            match self.list(old(state)@, inner.targets@, inner.default, area) {
                Some(list) => r matches Some(draws) && draw_views(draws@) == list,
                None => r is None,
            },
    {
        let mut draws: Vec<Draw> = Vec::new();
        if area.width < 8 || area.height < 1 {
            assert(draw_views(draws@) =~= Seq::<DrawView>::empty());
            return Some(draws);
        }
        let targets: Vec<String> = state.update_targets(&inner.targets);
        assert(texts(targets@).len() == targets@.len());
        let ghost updated = state@;
        let shown: usize = state.scroll(area.height);
        let ghost after = state@;
        let ghost hot = inner.targets@;
        assert(targets.len() == targets@.len());
        proof {
            if updated.nr_items > 0 {
                assert(updated.nr_items == targets@.len());
                law_selected_is_visible(updated, area.height as nat);
            }
        }
        if shown > 0 && (area.x > u16::MAX - 6 || shown - 1 > (u16::MAX - area.y) as usize) {
            return None;
        }
        let mut i: usize = 0;
        assert(draw_views(draws@) =~= Seq::<DrawView>::empty());
        while i < shown
            invariant
                i <= shown <= area.height,
                Self::in_range(area, shown as nat),
                state.wf(),
                state@ == after,
                inner.wf(),
                hot == inner.targets@,
                texts(targets@) == target_list(after.levels, after.hide_off),
                texts(targets@).len() == targets@.len(),
                after.offset + shown <= targets@.len(),
                draw_views(draws@) == self.rows(after, hot, inner.default, area, i as nat),
            decreases shown - i,
        {
            assert(targets.len() == targets@.len());
            let target: &String = &targets[i + state.offset];
            assert(texts(targets@)[i + state.offset] == target@);
            let recorded: LevelFilter = match inner.targets.get(target.as_str()) {
                Some(level) => level,
                None => inner.default,
            };
            let displayed: LevelFilter = match state.config.get(target.as_str()) {
                Some(level) => level,
                None => inner.default,
            };
            let row = RowLevels {
                recorded,
                displayed,
                selected: i + state.offset == state.selected,
                focus: state.focus_selected,
            };
            self.draw_row(
                &mut draws,
                area.x,
                area.y + i as u16,
                area.width,
                target.as_str(),
                &row,
            );
            i = i + 1;
        }
        Some(draws)
    }

    /// Draw the widget in an area of a buffer. The result is false, and the buffer is left as it
    /// was, if a line of the list has no coordinates or would lie outside of the buffer.
    pub fn render(
        self,
        state: &mut TuiWidgetInnerState,
        inner: &TuiLoggerInner,
        area: Rect,
        buf: &mut Buffer,
    ) -> (r: bool)
        requires
            old(state).wf(),
            inner.wf(),
            backdrop_fits(self.block, buffer_area(*old(buf)), area),
            is_whole(*old(buf)),
        ensures
            final(state).wf(),
            is_whole(*final(buf)),
            buffer_area(*final(buf)) == buffer_area(*old(buf)),
            area.wf() ==> content_area(self.block, area).wf(),
            ({
                let list_area = content_area(self.block, area);
                let whole = buffer_area(*old(buf));
                let cells = buffer_cells(*old(buf));
                let list = self.list(old(state)@, inner.targets@, inner.default, list_area);
                &&& final(state)@ == Self::laid_out(old(state)@, inner.targets@, list_area)
                &&& r <==> list is Some && can_draw_all(whole, list.unwrap())
                &&& r ==> buffer_cells(*final(buf)) == all_drawn(
                    whole,
                    backdrop(whole, cells, area, self.style, self.block),
                    list.unwrap(),
                )
                &&& !r ==> *final(buf) == *old(buf)
            }),
    {
        let list_area: Rect = inner_of(&self.block, area);
        match self.layout(state, inner, list_area) {
            Some(draws) => {
                if !drawable(area_of(buf), &draws) {
                    return false;
                }
                draw_backdrop(buf, area, self.style, self.block);
                draw_all(buf, &draws);
                true
            },
            None => false,
        }
    }

    pub fn block(self, block: Block<'b>) -> (r: TuiLoggerTargetWidget<'b>)
        ensures
            r == (TuiLoggerTargetWidget { block: Some(block), ..self }),
    {
        TuiLoggerTargetWidget { block: Some(block), ..self }
    }

    pub(crate) fn opt_style(self, style: Option<Style>) -> (r: TuiLoggerTargetWidget<'b>)
        ensures
            style matches Some(s) ==> r == (TuiLoggerTargetWidget { style: s, ..self }),
            style is None ==> r == self,
    {
        match style {
            Some(s) => TuiLoggerTargetWidget { style: s, ..self },
            None => self,
        }
    }

    pub(crate) fn opt_style_off(self, style: Option<Style>) -> (r: TuiLoggerTargetWidget<'b>)
        ensures
            style is Some ==> r == (TuiLoggerTargetWidget { style_off: style, ..self }),
            style is None ==> r == self,
    {
        if style.is_some() {
            TuiLoggerTargetWidget { style_off: style, ..self }
        } else {
            self
        }
    }

    pub(crate) fn opt_style_hide(self, style: Option<Style>) -> (r: TuiLoggerTargetWidget<'b>)
        ensures
            style matches Some(s) ==> r == (TuiLoggerTargetWidget { style_hide: s, ..self }),
            style is None ==> r == self,
    {
        match style {
            Some(s) => TuiLoggerTargetWidget { style_hide: s, ..self },
            None => self,
        }
    }

    pub(crate) fn opt_style_show(self, style: Option<Style>) -> (r: TuiLoggerTargetWidget<'b>)
        ensures
            style matches Some(s) ==> r == (TuiLoggerTargetWidget { style_show: s, ..self }),
            style is None ==> r == self,
    {
        match style {
            Some(s) => TuiLoggerTargetWidget { style_show: s, ..self },
            None => self,
        }
    }

    pub(crate) fn opt_highlight_style(self, style: Option<Style>) -> (r: TuiLoggerTargetWidget<'b>)
        ensures
            style matches Some(s) ==> r == (TuiLoggerTargetWidget { highlight_style: s, ..self }),
            style is None ==> r == self,
    {
        match style {
            Some(s) => TuiLoggerTargetWidget { highlight_style: s, ..self },
            None => self,
        }
    }

    pub fn style(self, style: Style) -> (r: TuiLoggerTargetWidget<'b>)
        ensures
            r == (TuiLoggerTargetWidget { style, ..self }),
    {
        TuiLoggerTargetWidget { style, ..self }
    }

    pub fn style_off(self, style: Style) -> (r: TuiLoggerTargetWidget<'b>)
        ensures
            r == (TuiLoggerTargetWidget { style_off: Some(style), ..self }),
    {
        TuiLoggerTargetWidget { style_off: Some(style), ..self }
    }

    pub fn style_hide(self, style: Style) -> (r: TuiLoggerTargetWidget<'b>)
        ensures
            r == (TuiLoggerTargetWidget { style_hide: style, ..self }),
    {
        TuiLoggerTargetWidget { style_hide: style, ..self }
    }

    pub fn style_show(self, style: Style) -> (r: TuiLoggerTargetWidget<'b>)
        ensures
            r == (TuiLoggerTargetWidget { style_show: style, ..self }),
    {
        TuiLoggerTargetWidget { style_show: style, ..self }
    }

    pub fn highlight_style(self, style: Style) -> (r: TuiLoggerTargetWidget<'b>)
        ensures
            r == (TuiLoggerTargetWidget { highlight_style: style, ..self }),
    {
        TuiLoggerTargetWidget { highlight_style: style, ..self }
    }
}

impl<'b> Default for TuiLoggerTargetWidget<'b> {
    fn default() -> (r: TuiLoggerTargetWidget<'b>)
        ensures
            r.block is None,
            r.style == style_of(0),
            is_neutral(r.style),
            r.style_off is None,
            r.style_hide == r.style,
            r.style_show == style_reversed(r.style),
            r.highlight_style == style_reversed(r.style),
    {
        let plain: Style = style_with(0);
        TuiLoggerTargetWidget {
            block: None,
            style: plain,
            style_off: None,
            style_hide: plain,
            style_show: reversed(plain),
            highlight_style: reversed(plain),
        }
    }
}

proof fn lemma_row_count(
    widget: TuiLoggerTargetWidget<'_>,
    s: StateView,
    hot: Map<Seq<char>, LevelFilter>,
    default: LevelFilter,
    area: Rect,
    n: nat,
)
    ensures
        widget.rows(s, hot, default, area, n).len() == 7 * n,
    decreases n,
{
    if n > 0 {
        lemma_row_count(widget, s, hot, default, area, (n - 1) as nat);
    }
}

proof fn lemma_row_at(
    widget: TuiLoggerTargetWidget<'_>,
    s: StateView,
    hot: Map<Seq<char>, LevelFilter>,
    default: LevelFilter,
    area: Rect,
    n: nat,
    i: int,
)
    requires
        0 <= i < n,
    ensures
        widget.rows(s, hot, default, area, n).subrange(7 * i, 7 * i + 7) =~= widget.rows(
            s,
            hot,
            default,
            area,
            (i + 1) as nat,
        ).subrange(7 * i, 7 * i + 7),
    decreases n,
{
    lemma_row_count(widget, s, hot, default, area, n);
    lemma_row_count(widget, s, hot, default, area, (i + 1) as nat);
    if i + 1 < n {
        let before = widget.rows(s, hot, default, area, (n - 1) as nat);
        lemma_row_count(widget, s, hot, default, area, (n - 1) as nat);
        lemma_row_at(widget, s, hot, default, area, (n - 1) as nat, i);
        assert(widget.rows(s, hot, default, area, n).subrange(7 * i, 7 * i + 7)
            =~= before.subrange(7 * i, 7 * i + 7));
    }
}

/// Each line of the list shows the next target in the order of strings, and one of the lines is
/// that of the selected target.
pub proof fn law_list_shows_targets_in_order(
    widget: TuiLoggerTargetWidget<'_>,
    s: StateView,
    hot: Map<Seq<char>, LevelFilter>,
    default: LevelFilter,
    area: Rect,
    i: int,
)
    requires
        area.wf(),
        !TuiLoggerTargetWidget::too_small(area),
        target_list(merged(s.levels, hot), s.hide_off).len() <= usize::MAX,
        0 <= i < list_height(
            area.height as nat,
            TuiLoggerTargetWidget::laid_out(s, hot, area).nr_items as nat,
        ),
    ensures
        ({
            let after = TuiLoggerTargetWidget::laid_out(s, hot, area);
            let names = target_list(after.levels, after.hide_off);
            let shown = list_height(area.height as nat, after.nr_items as nat);
            let list = widget.list(s, hot, default, area).unwrap();
            &&& widget.list(s, hot, default, area) is Some
            &&& list.len() == 7 * shown
            &&& list[7 * i + 6] matches DrawView::Text { text, y, .. } && text == names[i
                + after.offset] && y == area.y + i
            &&& after.offset <= after.selected < after.offset + shown <= names.len()
        }),
{
    let after = TuiLoggerTargetWidget::laid_out(s, hot, area);
    let shown = list_height(area.height as nat, after.nr_items as nat);
    let list = widget.list(s, hot, default, area).unwrap();
    lemma_row_count(widget, after, hot, default, area, shown);
    lemma_row_count(widget, after, hot, default, area, i as nat);
    lemma_row_count(widget, after, hot, default, area, (i + 1) as nat);
    lemma_row_at(widget, after, hot, default, area, shown, i);
    assert(list.subrange(7 * i, 7 * i + 7)[6] == list[7 * i + 6]);
    assert(widget.rows(after, hot, default, area, (i + 1) as nat).subrange(7 * i, 7 * i + 7)[6]
        == widget.rows(after, hot, default, area, (i + 1) as nat)[7 * i + 6]);
    law_selected_is_visible(with_targets(s, hot), area.height as nat);
}

/// Laying the list out changes what is known of the targets and nothing else in the state; in an
/// area that is too small for it, it changes nothing and draws nothing.
pub proof fn law_list_keeps_rest_of_state(
    widget: TuiLoggerTargetWidget<'_>,
    s: StateView,
    hot: Map<Seq<char>, LevelFilter>,
    default: LevelFilter,
    area: Rect,
)
    ensures
        ({
            let after = TuiLoggerTargetWidget::laid_out(s, hot, area);
            &&& after.display_level == s.display_level
            &&& after.timestamp_bottom == s.timestamp_bottom
            &&& after.timestamp_next_page == s.timestamp_next_page
            &&& after.timestamp_prev_page == s.timestamp_prev_page
            &&& after.hide_off == s.hide_off
            &&& after.hide_target == s.hide_target
            &&& after.focus_selected == s.focus_selected
            &&& TuiLoggerTargetWidget::too_small(area) ==> after == s && widget.list(
                s,
                hot,
                default,
                area,
            ) == Some(Seq::<DrawView>::empty())
        }),
{
}

/// What is recorded of a target: its own level in the logger, or the default one if it has none.
pub open spec fn is_recorded(
    hot: Map<Seq<char>, LevelFilter>,
    default: LevelFilter,
    target: Seq<char>,
    level: Level,
) -> bool {
    if hot.contains_key(target) {
        hot[target].lets_through(level)
    } else {
        default.lets_through(level)
    }
}

proof fn lemma_row_entry(
    widget: TuiLoggerTargetWidget<'_>,
    s: StateView,
    hot: Map<Seq<char>, LevelFilter>,
    default: LevelFilter,
    area: Rect,
    n: nat,
    i: int,
    j: int,
)
    requires
        0 <= i < n,
        0 <= j < 7,
    ensures
        ({
            let target = target_list(s.levels, s.hide_off)[i + s.offset];
            widget.rows(s, hot, default, area, n).len() == 7 * n && widget.rows(
                s,
                hot,
                default,
                area,
                n,
            )[7 * i + j] == widget.row(
                area.x,
                (area.y + i) as u16,
                area.width,
                target,
                RowLevels {
                    recorded: recording_level(hot, default, target),
                    displayed: recording_level(s.levels, default, target),
                    selected: i + s.offset == s.selected,
                    focus: s.focus_selected,
                },
            )[j]
        }),
{
    lemma_row_count(widget, s, hot, default, area, n);
    lemma_row_count(widget, s, hot, default, area, i as nat);
    lemma_row_count(widget, s, hot, default, area, (i + 1) as nat);
    lemma_row_at(widget, s, hot, default, area, n, i);
    let all = widget.rows(s, hot, default, area, n);
    let some = widget.rows(s, hot, default, area, (i + 1) as nat);
    assert(all.subrange(7 * i, 7 * i + 7)[j] == all[7 * i + j]);
    assert(some.subrange(7 * i, 7 * i + 7)[j] == some[7 * i + j]);
}

/// Each line of the list starts at the left edge of the area with a mark for each level, from
/// error to trace. Of a level that is recorded the mark is its letter, in the style for what is
/// shown if the level is displayed, too, and the focus is not on another target, and in the style
/// for what is hidden otherwise. Of a level that is not recorded it is the letter in the style for
/// what is off, or a blank if there is no such style.
pub proof fn law_marks_tell_levels(
    widget: TuiLoggerTargetWidget<'_>,
    s: StateView,
    hot: Map<Seq<char>, LevelFilter>,
    default: LevelFilter,
    area: Rect,
    i: int,
    j: int,
)
    requires
        area.wf(),
        area.width >= 8,
        area.height >= 1,
        0 <= i < list_height(
            area.height as nat,
            TuiLoggerTargetWidget::laid_out(s, hot, area).nr_items as nat,
        ),
        0 <= j < 5,
    ensures
        ({
            let after = TuiLoggerTargetWidget::laid_out(s, hot, area);
            let target = target_list(after.levels, after.hide_off)[i + after.offset];
            let level = if j == 0 {
                Level::Error
            } else if j == 1 {
                Level::Warn
            } else if j == 2 {
                Level::Info
            } else if j == 3 {
                Level::Debug
            } else {
                Level::Trace
            };
            let letter = if j == 0 {
                "E"@
            } else if j == 1 {
                "W"@
            } else if j == 2 {
                "I"@
            } else if j == 3 {
                "D"@
            } else {
                "T"@
            };
            let recorded = is_recorded(hot, default, target, level);
            let displayed = is_recorded(after.levels, default, target, level);
            let in_focus = !after.focus_selected || i + after.offset == after.selected;
            let list = widget.list(s, hot, default, area).unwrap();
            &&& widget.list(s, hot, default, area) is Some
            &&& list[7 * i + j] matches DrawView::Letter { x, y, symbol, cell_style } && {
                &&& x == area.x + j
                &&& y == area.y + i
                &&& recorded ==> symbol == letter
                &&& recorded && displayed && in_focus ==> cell_style == Some(widget.style_show)
                &&& recorded && !(displayed && in_focus) ==> cell_style == Some(widget.style_hide)
                &&& !recorded && widget.style_off is Some ==> symbol == letter && cell_style
                    == widget.style_off
                &&& !recorded && widget.style_off is None ==> symbol == " "@ && cell_style is None
            }
        }),
{
    let after = TuiLoggerTargetWidget::laid_out(s, hot, area);
    let shown = list_height(area.height as nat, after.nr_items as nat);
    lemma_row_entry(widget, after, hot, default, area, shown, i, j);
}

/// Behind the marks of a target stand a colon and its name, which is drawn from six columns into
/// the area on and has the whole width of the area: it is drawn in full wherever the buffer has
/// room for it. The name of the selected target is highlighted, and no other.
pub proof fn law_names_are_drawn_in_full(
    widget: TuiLoggerTargetWidget<'_>,
    s: StateView,
    hot: Map<Seq<char>, LevelFilter>,
    default: LevelFilter,
    area: Rect,
    i: int,
)
    requires
        area.wf(),
        area.width >= 8,
        area.height >= 1,
        0 <= i < list_height(
            area.height as nat,
            TuiLoggerTargetWidget::laid_out(s, hot, area).nr_items as nat,
        ),
    ensures
        ({
            let after = TuiLoggerTargetWidget::laid_out(s, hot, area);
            let list = widget.list(s, hot, default, area).unwrap();
            &&& widget.list(s, hot, default, area) is Some
            &&& list[7 * i + 5] matches DrawView::Text { x, y, text, max_width, style } && x
                == area.x + 5 && y == area.y + i && text == ":"@ && max_width == area.width
                && style == widget.style
            &&& list[7 * i + 6] matches DrawView::Text { x, y, text, max_width, style } && {
                &&& x == area.x + 6
                &&& y == area.y + i
                &&& text == target_list(after.levels, after.hide_off)[i + after.offset]
                &&& max_width == area.width
                &&& max_width >= area.width - 6
                &&& i + after.offset == after.selected ==> style == widget.highlight_style
                &&& i + after.offset != after.selected ==> style == widget.style
            }
        }),
{
    let after = TuiLoggerTargetWidget::laid_out(s, hot, area);
    let shown = list_height(area.height as nat, after.nr_items as nat);
    lemma_row_entry(widget, after, hot, default, area, shown, i, 5);
    lemma_row_entry(widget, after, hot, default, area, shown, i, 6);
}

/// The list needs eight columns and a row. With these it brings the state up to date with the
/// logger and scrolls it for the height of the area.
pub proof fn law_layout_updates_and_scrolls(
    widget: TuiLoggerTargetWidget<'_>,
    inner: &TuiLoggerInner,
    area: Rect,
)
    ensures
        forall|st: &mut TuiWidgetInnerState, r: Option<Vec<Draw>>| #[trigger]
            call_ensures(TuiLoggerTargetWidget::layout, (&widget, st, inner, area), r) ==> {
                &&& area.width < 8 || area.height < 1 ==> final(st)@ == st@ && (r matches Some(
                    draws,
                ) && draws@.len() == 0)
                &&& r matches Some(draws) ==> Some(draw_views(draws@)) == widget.list(
                    st@,
                    inner.targets@,
                    inner.default,
                    area,
                )
                &&& area.wf() ==> r is Some
                &&& final(st)@ == TuiLoggerTargetWidget::laid_out(st@, inner.targets@, area)
            },
        forall|
            st: &mut TuiWidgetInnerState,
            r: Option<Vec<Draw>>,
            up: &mut TuiWidgetInnerState,
            names: Vec<String>,
            sc: &mut TuiWidgetInnerState,
            shown: usize,
        |
            (#[trigger] call_ensures(TuiLoggerTargetWidget::layout, (&widget, st, inner, area), r)
                && area.width >= 8 && area.height >= 1 && up@ == st@ && #[trigger] call_ensures(
                TuiWidgetInnerState::update_targets,
                (up, &inner.targets),
                names,
            ) && sc@ == final(up)@ && #[trigger] call_ensures(
                TuiWidgetInnerState::scroll,
                (sc, area.height),
                shown,
            )) ==> final(st)@ == final(sc)@ && (r matches Some(draws) ==> draws@.len() == 7
                * shown),
{
    assert forall|st: &mut TuiWidgetInnerState, r: Option<Vec<Draw>>| #[trigger]
        call_ensures(TuiLoggerTargetWidget::layout, (&widget, st, inner, area), r) implies (
    r matches Some(draws) ==> draw_views(draws@).len() == draws@.len()) by {}
    assert forall|s: StateView, n: nat| #[trigger]
        widget.rows(s, inner.targets@, inner.default, area, n).len() == 7 * n by {
        lemma_row_count(widget, s, inner.targets@, inner.default, area, n);
    }
}

/// `render` draws what `layout` says on the backdrop: it succeeds exactly if the list can be laid
/// out in what the block leaves of the area and can be drawn in the buffer, and leaves the state as
/// `layout` does.
pub proof fn law_list_render_draws_layout(
    widget: TuiLoggerTargetWidget<'_>,
    inner: &TuiLoggerInner,
    area: Rect,
)
    ensures
        forall|
            st: &mut TuiWidgetInnerState,
            buf: &mut Buffer,
            r: bool,
            other: &mut TuiWidgetInnerState,
            laid: Option<Vec<Draw>>,
        |
            (#[trigger] call_ensures(TuiLoggerTargetWidget::render, (widget, st, inner, area, buf), r)
                && other@ == st@ && #[trigger] call_ensures(
                TuiLoggerTargetWidget::layout,
                (&widget, other, inner, content_area(widget.block, area)),
                laid,
            )) ==> {
                &&& final(st)@ == final(other)@
                &&& r <==> (laid matches Some(draws) && can_draw_all(
                    buffer_area(*buf),
                    draw_views(draws@),
                ))
                &&& !r ==> *final(buf) == *buf
                &&& r ==> buffer_cells(*final(buf)) == all_drawn(
                    buffer_area(*buf),
                    backdrop(buffer_area(*buf), buffer_cells(*buf), area, widget.style, widget.block),
                    draw_views(laid.unwrap()@),
                )
            },
{
}

/// Each setting of the widget changes what it is named after and nothing else.
pub proof fn law_list_settings_are_apart()
    ensures
        forall|w: TuiLoggerTargetWidget<'_>, value: Block<'_>, r: TuiLoggerTargetWidget<'_>| #[trigger]
            call_ensures(TuiLoggerTargetWidget::block, (w, value), r) ==> r == (TuiLoggerTargetWidget { block: Some(value), ..w }),
        forall|w: TuiLoggerTargetWidget<'_>, value: Style, r: TuiLoggerTargetWidget<'_>| #[trigger]
            call_ensures(TuiLoggerTargetWidget::style, (w, value), r) ==> r == (TuiLoggerTargetWidget { style: value, ..w }),
        forall|w: TuiLoggerTargetWidget<'_>, value: Style, r: TuiLoggerTargetWidget<'_>| #[trigger]
            call_ensures(TuiLoggerTargetWidget::style_off, (w, value), r) ==> r == (TuiLoggerTargetWidget { style_off: Some(value), ..w }),
        forall|w: TuiLoggerTargetWidget<'_>, value: Style, r: TuiLoggerTargetWidget<'_>| #[trigger]
            call_ensures(TuiLoggerTargetWidget::style_hide, (w, value), r) ==> r == (TuiLoggerTargetWidget { style_hide: value, ..w }),
        forall|w: TuiLoggerTargetWidget<'_>, value: Style, r: TuiLoggerTargetWidget<'_>| #[trigger]
            call_ensures(TuiLoggerTargetWidget::style_show, (w, value), r) ==> r == (TuiLoggerTargetWidget { style_show: value, ..w }),
        forall|w: TuiLoggerTargetWidget<'_>, value: Style, r: TuiLoggerTargetWidget<'_>| #[trigger]
            call_ensures(TuiLoggerTargetWidget::highlight_style, (w, value), r) ==> r == (TuiLoggerTargetWidget { highlight_style: value, ..w }),
{
}

/// Without settings, the list has no block and no style for what is off; shown levels and the
/// selected target are reversed, and the rest is plain.
pub proof fn law_list_defaults()
    ensures
        forall|w: TuiLoggerTargetWidget<'_>| #[trigger]
            call_ensures(TuiLoggerTargetWidget::default, (), w) ==> {
                &&& w.block is None && w.style_off is None
                &&& w.style == style_of(0) && w.style_hide == style_of(0)
                &&& w.style_show == style_reversed(style_of(0))
                &&& w.highlight_style == style_reversed(style_of(0))
            },
{
}

/// The list can be laid out unless a line of it has no coordinates.
pub proof fn law_lines_need_coordinates(
    widget: TuiLoggerTargetWidget<'_>,
    s: StateView,
    hot: Map<Seq<char>, LevelFilter>,
    default: LevelFilter,
    area: Rect,
)
    requires
        area.width >= 8,
        area.height >= 1,
    ensures
        ({
            let n = TuiLoggerTargetWidget::laid_out(s, hot, area).nr_items;
            let last = if n <= area.height {
                area.y + n - 1
            } else {
                area.y + area.height - 1
            };
            widget.list(s, hot, default, area) is None <==> n > 0 && (area.x + 6 > 65535 || last
                > 65535)
        }),
{
}

} // verus!
