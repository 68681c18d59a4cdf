//! The screen as the widgets draw on it: a buffer of styled cells, and what `ratatui` does to it.

use crate::text::to_chars;
use ratatui::buffer::Buffer;
use ratatui::buffer::Cell;
use ratatui::layout::Constraint;
use ratatui::layout::Direction;
use ratatui::layout::Layout;
use ratatui::style::Modifier;
use ratatui::style::Style;
use ratatui::text::Line;
use ratatui::widgets::Block;
use ratatui::widgets::Borders;
use ratatui::widgets::Widget;
use vstd::prelude::*;

verus! {

/// `ratatui::style::Style`. The widgets choose among styles and never look into one.
#[verifier::external_type_specification]
#[verifier::external_body]
pub struct ExStyle(Style);

/// `ratatui::buffer::Cell`, a place for one symbol and its style.
#[verifier::external_type_specification]
#[verifier::external_body]
pub struct ExCell(Cell);

/// `ratatui::buffer::Buffer`, the cells of an area.
#[verifier::external_type_specification]
#[verifier::external_body]
pub struct ExBuffer(Buffer);

/// `ratatui::widgets::Block`, a frame with titles.
#[verifier::external_type_specification]
#[verifier::external_body]
pub struct ExBlock<'a>(Block<'a>);

/// `ratatui::text::Line`, a line of styled text.
#[verifier::external_type_specification]
#[verifier::external_body]
pub struct ExLine<'a>(Line<'a>);

/// A rectangle of cells.
#[derive(Clone, Copy, Debug, PartialEq, Eq, Structural)]
pub struct Rect {
    pub x: u16,
    pub y: u16,
    pub width: u16,
    pub height: u16,
}

/// How the border of a block is drawn.
#[derive(Clone, Copy, Debug, PartialEq, Eq, Structural)]
pub enum BorderType {
    Plain,
    Rounded,
    Double,
    Thick,
    QuadrantInside,
    QuadrantOutside,
}

/// To which side a line of text is moved.
#[derive(Clone, Copy, Debug, PartialEq, Eq, Structural)]
pub enum Alignment {
    Left,
    Center,
    Right,
}

impl Rect {
    /// The right and the bottom edge are coordinates, too.
    pub open spec fn wf(self) -> bool {
        self.x + self.width <= u16::MAX && self.y + self.height <= u16::MAX
    }

    /// The first column to the right of the rectangle.
    pub open spec fn right(self) -> int {
        if self.x + self.width <= u16::MAX {
            self.x + self.width
        } else {
            u16::MAX as int
        }
    }

    /// The first row below the rectangle.
    pub open spec fn bottom(self) -> int {
        if self.y + self.height <= u16::MAX {
            self.y + self.height
        } else {
            u16::MAX as int
        }
    }

    /// Whether the rectangle holds the cell.
    pub open spec fn covers(self, cell: (u16, u16)) -> bool {
        self.x <= cell.0 < self.right() && self.y <= cell.1 < self.bottom()
    }

    /// The first column to the right of the rectangle, and the first row below it.
    fn edges(self) -> (r: (u16, u16))
        ensures
            r.0 == self.right(),
            r.1 == self.bottom(),
    {
        let right: u16 = if self.width <= u16::MAX - self.x {
            self.x + self.width
        } else {
            u16::MAX
        };
        let bottom: u16 = if self.height <= u16::MAX - self.y {
            self.y + self.height
        } else {
            u16::MAX
        };
        (right, bottom)
    }
}

/// The cells of a buffer: for each position at which `Buffer::cell` finds a cell, this cell.
pub uninterp spec fn buffer_cells(buf: Buffer) -> Map<(u16, u16), Cell>;

/// The area that a buffer was made for, its field `area`.
pub uninterp spec fn buffer_area(buf: Buffer) -> Rect;

/// A buffer has cells for its whole area.
pub open spec fn is_whole(buf: Buffer) -> bool {
    forall|cell: (u16, u16)| #[trigger]
        buffer_cells(buf).contains_key(cell) <==> buffer_area(buf).covers(cell)
}

/// A cell after `Cell::set_style`.
pub uninterp spec fn cell_styled(cell: Cell, style: Style) -> Cell;

/// A cell after `Cell::set_symbol`.
pub uninterp spec fn cell_lettered(cell: Cell, symbol: Seq<char>) -> Cell;

/// The cells of a buffer of the given area after `Buffer::set_stringn`.
pub uninterp spec fn text_drawn(
    area: Rect,
    cells: Map<(u16, u16), Cell>,
    x: u16,
    y: u16,
    text: Seq<char>,
    max_width: usize,
    style: Style,
) -> Map<(u16, u16), Cell>;

/// The column that `Buffer::set_stringn` returns after it drew a text from the first column on in
/// a row of the given width: how many columns it filled.
pub uninterp spec fn columns_taken(text: Seq<char>, width: u16) -> u16;

/// What `Block::inner` returns: the part of an area that a block leaves to its content.
pub uninterp spec fn block_inner_area(block: Block<'_>, area: Rect) -> Rect;

/// The cells of a buffer of area `whole` after a block was rendered in `area`.
pub uninterp spec fn block_drawn(
    block: Block<'_>,
    whole: Rect,
    cells: Map<(u16, u16), Cell>,
    area: Rect,
) -> Map<(u16, u16), Cell>;

/// Whether the paddings of a block, which `Block::inner` adds up in 16 bits, are small enough for
/// that.
pub uninterp spec fn padding_fits(block: Block<'_>) -> bool;

/// Whether a block can be rendered in `area` of a buffer of area `whole`. Titles can be in the way:
/// the rendering counts their widths up by one in 16 bits, and where it cuts one off at the front,
/// it insists on a width that is the sum of the widths of the parts.
pub uninterp spec fn rendering_fits(block: Block<'_>, whole: Rect, area: Rect) -> bool;

/// `Style::default` with the modifiers of the given bits added.
pub uninterp spec fn style_of(modifiers: u16) -> Style;

/// A style after `Style::add_modifier` with `Modifier::REVERSED`.
pub uninterp spec fn style_reversed(style: Style) -> Style;

/// `Line::from` of a text.
pub uninterp spec fn line_of(text: Seq<char>) -> Line<'static>;

/// A line after an unstyled span with the text was pushed to its spans.
pub uninterp spec fn line_extended(line: Line<'_>, text: Seq<char>) -> Line<'static>;

/// The field `Line::alignment`.
pub uninterp spec fn line_alignment(line: Line<'_>) -> Option<Alignment>;

/// What `String::from` makes of a line: the text of its spans.
pub uninterp spec fn line_text(line: Line<'_>) -> Seq<char>;

/// What `Line::width` returns: the number of columns that a line takes up.
pub uninterp spec fn line_columns(line: Line<'_>) -> usize;

/// A block with all borders and a title.
pub uninterp spec fn framed(
    title: Line<'_>,
    border_style: Style,
    border_type: BorderType,
) -> Block<'static>;

/// `Style::default` with the modifiers of the given bits added. The style depends on the bits
/// alone. Without any modifier it changes nothing in a cell that it is applied to.
#[verifier::external_body]
pub(crate) fn style_with(modifiers: u16) -> (r: Style)
    ensures
        r == style_of(modifiers),
        modifiers == 0 ==> is_neutral(r),
{
    Style::default().add_modifier(Modifier::from_bits_truncate(modifiers))
}

/// A style that leaves every cell as it is.
pub open spec fn is_neutral(style: Style) -> bool {
    forall|cell: Cell| #[trigger] cell_styled(cell, style) == cell
}

/// `Style::add_modifier` with `Modifier::REVERSED`. What the style then is, depends on the given
/// one alone.
#[verifier::external_body]
pub(crate) fn reversed(style: Style) -> (r: Style)
    ensures
        r == style_reversed(style),
{
    style.add_modifier(Modifier::REVERSED)
}

/// Reads the field `Buffer::area`.
#[verifier::external_body]
pub(crate) fn area_of(buf: &Buffer) -> (r: Rect)
    ensures
        r == buffer_area(*buf),
{
    Rect { x: buf.area.x, y: buf.area.y, width: buf.area.width, height: buf.area.height }
}

/// The cells after those within an area were styled.
pub open spec fn area_styled(
    cells: Map<(u16, u16), Cell>,
    area: Rect,
    style: Style,
) -> Map<(u16, u16), Cell> {
    Map::new(
        |cell: (u16, u16)| cells.contains_key(cell),
        |cell: (u16, u16)|
            if area.covers(cell) {
                cell_styled(cells[cell], style)
            } else {
                cells[cell]
            },
    )
}

/// `Buffer::set_style` applies `Cell::set_style` to each cell of the buffer that lies within the
/// area, and leaves the others alone.
#[verifier::external_body]
fn style_area(buf: &mut Buffer, area: Rect, style: Style)
    requires
        is_whole(*old(buf)),
    ensures
        buffer_area(*final(buf)) == buffer_area(*old(buf)),
        buffer_cells(*final(buf)) == area_styled(buffer_cells(*old(buf)), area, style),
{
    let area = ratatui::layout::Rect { x: area.x, y: area.y, width: area.width, height: area.height };
    buf.set_style(area, style);
}

/// `Block::inner`. What it leaves of an area depends on the block and the area alone, and has
/// edges that are coordinates if the area has.
#[verifier::external_body]
pub(crate) fn block_inner(block: &Block<'_>, area: Rect) -> (r: Rect)
    requires
        padding_fits(*block),
    ensures
        r == block_inner_area(*block, area),
        area.wf() ==> r.wf(),
{
    let area = ratatui::layout::Rect { x: area.x, y: area.y, width: area.width, height: area.height };
    let inner = block.inner(area);
    Rect { x: inner.x, y: inner.y, width: inner.width, height: inner.height }
}

/// `Widget::render` of a `Block`. It adds and takes away no cells; what they show afterwards
/// depends on the block, the area and the cells alone.
#[verifier::external_body]
fn draw_block(block: Block<'_>, area: Rect, buf: &mut Buffer)
    requires
        is_whole(*old(buf)),
        rendering_fits(block, buffer_area(*old(buf)), area),
    ensures
        buffer_area(*final(buf)) == buffer_area(*old(buf)),
        is_whole(*final(buf)),
        buffer_cells(*final(buf)) == block_drawn(
            block,
            buffer_area(*old(buf)),
            buffer_cells(*old(buf)),
            area,
        ),
{
    let area = ratatui::layout::Rect { x: area.x, y: area.y, width: area.width, height: area.height };
    block.render(area, buf);
}

/// `Buffer::cell_mut` lends the cell at a position, or nothing if the buffer has none there.
#[verifier::external_body]
fn cell_mut(buf: &mut Buffer, x: u16, y: u16) -> (r: Option<&mut Cell>)
    ensures
        buffer_area(*final(buf)) == buffer_area(*old(buf)),
        match r {
            Some(cell) => {
                &&& buffer_cells(*old(buf)).contains_key((x, y))
                &&& *cell == buffer_cells(*old(buf))[(x, y)]
                &&& buffer_cells(*final(buf)) == buffer_cells(*old(buf)).insert(
                    (x, y),
                    *final(cell),
                )
            },
            None => {
                &&& !buffer_cells(*old(buf)).contains_key((x, y))
                &&& buffer_cells(*final(buf)) == buffer_cells(*old(buf))
            },
        },
{
    buf.cell_mut((x, y))
}

/// `Cell::set_style`. What the cell then is, depends on the cell and the style alone.
#[verifier::external_body]
fn cell_set_style(cell: &mut Cell, style: Style)
    ensures
        *final(cell) == cell_styled(*old(cell), style),
{
    cell.set_style(style);
}

/// `Cell::set_symbol`. What the cell then is, depends on the cell and the symbol alone.
#[verifier::external_body]
fn cell_set_symbol(cell: &mut Cell, symbol: &str)
    ensures
        *final(cell) == cell_lettered(*old(cell), symbol@),
{
    cell.set_symbol(symbol);
}

/// How many columns there are for a text from a column on in a buffer of the given area.
pub open spec fn text_room(area: Rect, x: u16, max_width: usize) -> u16 {
    if x >= area.right() {
        0
    } else if max_width < area.right() - x {
        max_width as u16
    } else {
        (area.right() - x) as u16
    }
}

/// Whether text can be drawn from a position on in a buffer of the given area: the position is
/// within the area, or there is nothing to draw.
pub open spec fn text_fits(area: Rect, x: u16, y: u16, text: Seq<char>, max_width: usize) -> bool {
    area.covers((x, y)) || columns_taken(text, text_room(area, x, max_width)) == 0
}

/// `Buffer::set_stringn` in a row of its own. How many columns it fills, depends on the text and
/// the width of the row alone.
#[verifier::external_body]
fn columns_for(text: &str, width: u16) -> (r: u16)
    ensures
        r == columns_taken(text@, width),
{
    let mut row = Buffer::empty(ratatui::layout::Rect { x: 0, y: 0, width, height: 1 });
    row.set_stringn(0, 0, text, usize::MAX, Style::default()).0
}

/// `Buffer::set_stringn` draws text from a position on, to the end of the line at most. It adds
/// and takes away no cells; what they show afterwards depends on the arguments alone.
#[verifier::external_body]
fn draw_text(buf: &mut Buffer, x: u16, y: u16, text: &str, max_width: usize, style: Style)
    requires
        is_whole(*old(buf)),
        text_fits(buffer_area(*old(buf)), x, y, text@, max_width),
    ensures
        buffer_area(*final(buf)) == buffer_area(*old(buf)),
        is_whole(*final(buf)),
        buffer_cells(*final(buf)) == text_drawn(
            buffer_area(*old(buf)),
            buffer_cells(*old(buf)),
            x,
            y,
            text@,
            max_width,
            style,
        ),
{
    buf.set_stringn(x, y, text, max_width, style);
}

/// `Line::from` of a text. What the line is, depends on the text alone.
#[verifier::external_body]
pub(crate) fn line_from<'a>(text: &'a str) -> (r: Line<'a>)
    ensures
        r == line_of(text@),
{
    Line::from(text)
}

/// Pushes a `Span` made of a text to the spans of a copy of a line. What the line then is,
/// depends on the line and the text alone.
#[verifier::external_body]
pub(crate) fn extend_line<'a>(line: &Line<'a>, text: &str) -> (r: Line<'a>)
    ensures
        r == line_extended(*line, text@),
{
    let mut line = line.clone();
    line.spans.push(text.to_owned().into());
    line
}

/// `Line::width`, which depends on the line alone.
#[verifier::external_body]
pub(crate) fn line_width(line: &Line<'_>) -> (r: usize)
    ensures
        r == line_columns(*line),
{
    line.width()
}

/// The field `Line::alignment`.
#[verifier::external_body]
fn alignment_of(line: &Line<'_>) -> (r: Option<Alignment>)
    ensures
        r == line_alignment(*line),
{
    match line.alignment {
        None => None,
        Some(ratatui::layout::Alignment::Left) => Some(Alignment::Left),
        Some(ratatui::layout::Alignment::Center) => Some(Alignment::Center),
        Some(ratatui::layout::Alignment::Right) => Some(Alignment::Right),
    }
}

/// `String::from` of a line. The text depends on the line alone.
#[verifier::external_body]
fn text_of(line: &Line<'_>) -> (r: String)
    ensures
        r@ == line_text(*line),
{
    String::from(line.clone())
}

/// Whether a character adds the same width to every text of such characters, whatever stands
/// beside it. Left out are control characters, and those that take their width, or that of their
/// neighbour, from what they are joined with: the letters lam before an alef, the Khmer coeng sign,
/// the Tifinagh joiner, the first of two Lisu tones, the joiner, the selectors of text and emoji
/// presentation, and the modifiers of emoji.
pub open spec fn adds_up(c: char) -> bool {
    let n = c as int;
    !(n < 0x20 || n == 0x644 || 0x6b5 <= n <= 0x6b8 || n == 0x76a || n == 0x8a6 || n == 0x8c7 || n
        == 0x17d2 || n == 0x200d || n == 0x2d7f || 0xa4f8 <= n <= 0xa4fb || 0xfe0e <= n <= 0xfe0f
        || 0x1f3fb <= n <= 0x1f3ff)
}

fn char_adds_up(c: char) -> (r: bool)
    ensures
        r == adds_up(c),
{
    let lam: bool = c == '\u{644}' || ('\u{6b5}' <= c && c <= '\u{6b8}') || c == '\u{76a}' || c
        == '\u{8a6}' || c == '\u{8c7}';
    let sign: bool = c == '\u{17d2}' || c == '\u{200d}' || c == '\u{2d7f}' || ('\u{fe0e}' <= c && c
        <= '\u{fe0f}');
    let tone: bool = ('\u{a4f8}' <= c && c <= '\u{a4fb}') || ('\u{1f3fb}' <= c && c <= '\u{1f3ff}');
    !(c < '\u{20}' || lam || sign || tone)
}

/// How many columns of `area` lie within `whole`, if any of its rows do.
pub open spec fn visible_width(whole: Rect, area: Rect) -> int {
    let left = if area.x >= whole.x {
        area.x
    } else {
        whole.x
    };
    let right = if area.right() <= whole.right() {
        area.right()
    } else {
        whole.right()
    };
    let top = if area.y >= whole.y {
        area.y
    } else {
        whole.y
    };
    if left < right && top < area.bottom() && top < whole.bottom() {
        right - left
    } else {
        0
    }
}

/// Whether a title can be drawn in the frame around `area` in a buffer of area `whole`. Nothing
/// is in the way if none of the area is visible. Otherwise the width of a title that is not moved
/// to the right has to leave room for one more column in 16 bits; and a title that is moved from
/// the left, and cut off at the front because it does not fit between the corners, has to consist
/// of characters whose widths add up.
pub open spec fn title_fits(title: Line<'_>, whole: Rect, area: Rect) -> bool {
    let visible = visible_width(whole, area);
    let counted = line_columns(title) % 0x10000 != u16::MAX;
    let uncut = visible <= 2 || line_columns(title) + 2 <= visible || forall|i: int|
        0 <= i < line_text(title).len() ==> adds_up(#[trigger] line_text(title)[i]);
    visible == 0 || match line_alignment(title) {
        Some(Alignment::Right) => uncut,
        Some(Alignment::Center) => counted && uncut,
        _ => counted || visible <= 2,
    }
}

/// Whether a title can be drawn in the frame around `area` in a buffer of area `whole`.
pub(crate) fn can_title(title: &Line<'_>, whole: Rect, area: Rect) -> (r: bool)
    ensures
        r == title_fits(*title, whole, area),
{
    let (area_right, area_bottom): (u16, u16) = area.edges();
    let (whole_right, whole_bottom): (u16, u16) = whole.edges();
    let left: u16 = if area.x >= whole.x {
        area.x
    } else {
        whole.x
    };
    let right: u16 = if area_right <= whole_right {
        area_right
    } else {
        whole_right
    };
    let top: u16 = if area.y >= whole.y {
        area.y
    } else {
        whole.y
    };
    if left >= right || top >= area_bottom || top >= whole_bottom {
        return true;
    }
    let visible: u16 = right - left;
    let columns: usize = line_width(title);
    let counted: bool = columns % 0x10000 != u16::MAX as usize;
    let uncut: bool = visible <= 2 || columns <= (visible - 2) as usize || all_add_up(
        text_of(title).as_str(),
    );
    match alignment_of(title) {
        Some(Alignment::Right) => uncut,
        Some(Alignment::Center) => counted && uncut,
        _ => counted || visible <= 2,
    }
}

fn all_add_up(text: &str) -> (r: bool)
    ensures
        r == forall|i: int| 0 <= i < text@.len() ==> adds_up(#[trigger] text@[i]),
{
    let chars: Vec<char> = to_chars(text);
    let mut i: usize = 0;
    while i < chars.len()
        invariant
            chars@ == text@,
            i <= chars@.len(),
            forall|k: int| 0 <= k < i ==> adds_up(#[trigger] text@[k]),
        decreases chars@.len() - i,
    {
        let c: char = chars[i];
        if !char_adds_up(c) {
            assert(!adds_up(text@[i as int]));
            return false;
        }
        i = i + 1;
    }
    true
}

/// `Block::default` with the title, the style and the type of the border and with all borders.
/// The block depends on these alone. It has no padding. It can be rendered wherever its only title
/// can be drawn.
#[verifier::external_body]
pub(crate) fn frame<'a>(title: Line<'a>, border_style: Style, border_type: BorderType) -> (r: Block<
    'a,
>)
    ensures
        r == framed(title, border_style, border_type),
        padding_fits(r),
        forall|whole: Rect, area: Rect|
            title_fits(title, whole, area) ==> #[trigger] rendering_fits(r, whole, area),
{
    let border_type = match border_type {
        BorderType::Plain => ratatui::widgets::BorderType::Plain,
        BorderType::Rounded => ratatui::widgets::BorderType::Rounded,
        BorderType::Double => ratatui::widgets::BorderType::Double,
        BorderType::Thick => ratatui::widgets::BorderType::Thick,
        BorderType::QuadrantInside => ratatui::widgets::BorderType::QuadrantInside,
        BorderType::QuadrantOutside => ratatui::widgets::BorderType::QuadrantOutside,
    };
    let block = Block::default().title(title).border_style(border_style);
    block.border_type(border_type).borders(Borders::ALL)
}

/// An area shared out between two columns: the first has the given length, unless the second
/// would then be narrower than `min`, and the second has the rest.
pub open spec fn two_columns(area: Rect, length: u16, min: u16) -> (Rect, Rect) {
    let width = area.right() - area.x;
    let room = if width >= min {
        width - min
    } else {
        0
    };
    let first = if length <= room {
        length as int
    } else {
        room
    };
    (
        Rect { width: first as u16, ..area },
        Rect { x: (area.x + first) as u16, width: (width - first) as u16, ..area },
    )
}

/// `Layout::split` of an area into two columns, the first with a constraint for its length and
/// the second with one for its least width. `ratatui` gives the least width priority over the
/// length, and what is left over goes to the column that has only a least width.
#[verifier::external_body]
pub(crate) fn split_columns(area: Rect, length: u16, min: u16) -> (r: (Rect, Rect))
    requires
        min <= i16::MAX,
    ensures
        r == two_columns(area, length, min),
{
    let area = ratatui::layout::Rect { x: area.x, y: area.y, width: area.width, height: area.height };
    let chunks = Layout::default()
        .direction(Direction::Horizontal)
        .constraints(vec![Constraint::Length(length), Constraint::Min(min)])
        .split(area);
    (
        Rect { x: chunks[0].x, y: chunks[0].y, width: chunks[0].width, height: chunks[0].height },
        Rect { x: chunks[1].x, y: chunks[1].y, width: chunks[1].width, height: chunks[1].height },
    )
}

/// One step of drawing.
pub enum Draw {
    /// A symbol in one cell, with a style unless the cell keeps its own.
    Letter { x: u16, y: u16, symbol: String, cell_style: Option<Style> },
    /// Text from a position on.
    Text { x: u16, y: u16, text: String, max_width: usize, style: Style },
}

/// What a `Draw` says.
pub enum DrawView {
    Letter { x: u16, y: u16, symbol: Seq<char>, cell_style: Option<Style> },
    Text { x: u16, y: u16, text: Seq<char>, max_width: usize, style: Style },
}

impl View for Draw {
    type V = DrawView;

    open spec fn view(&self) -> DrawView {
        match *self {
            Draw::Letter { x, y, symbol, cell_style } => DrawView::Letter {
                x,
                y,
                symbol: symbol@,
                cell_style,
            },
            Draw::Text { x, y, text, max_width, style } => DrawView::Text {
                x,
                y,
                text: text@,
                max_width,
                style,
            },
        }
    }
}

/// What a sequence of steps says.
pub open spec fn draw_views(draws: Seq<Draw>) -> Seq<DrawView> {
    draws.map_values(|d: Draw| d@)
}

/// Whether a step can be drawn in a buffer of the given area. A symbol outside of it is left out.
pub open spec fn can_draw(area: Rect, draw: DrawView) -> bool {
    match draw {
        DrawView::Letter { .. } => true,
        DrawView::Text { x, y, text, max_width, .. } => text_fits(area, x, y, text, max_width),
    }
}

/// Whether all steps can be drawn in a buffer of the given area.
pub open spec fn can_draw_all(area: Rect, draws: Seq<DrawView>) -> bool {
    forall|i: int| 0 <= i < draws.len() ==> can_draw(area, #[trigger] draws[i])
}

/// The cells after a step.
pub open spec fn drawn(area: Rect, cells: Map<(u16, u16), Cell>, draw: DrawView) -> Map<
    (u16, u16),
    Cell,
> {
    match draw {
        DrawView::Letter { x, y, symbol, cell_style } => if cells.contains_key((x, y)) {
            let cell = match cell_style {
                Some(style) => cell_styled(cells[(x, y)], style),
                None => cells[(x, y)],
            };
            cells.insert((x, y), cell_lettered(cell, symbol))
        } else {
            cells
        },
        DrawView::Text { x, y, text, max_width, style } => text_drawn(
            area,
            cells,
            x,
            y,
            text,
            max_width,
            style,
        ),
    }
}

/// The cells after all steps, one after the other.
pub open spec fn all_drawn(
    area: Rect,
    cells: Map<(u16, u16), Cell>,
    draws: Seq<DrawView>,
) -> Map<(u16, u16), Cell>
    decreases draws.len(),
{
    if draws.len() == 0 {
        cells
    } else {
        drawn(area, all_drawn(area, cells, draws.drop_last()), draws.last())
    }
}

/// Whether all steps can be drawn in a buffer of the given area.
pub fn drawable(area: Rect, draws: &Vec<Draw>) -> (r: bool)
    ensures
        r == can_draw_all(area, draw_views(draws@)),
{
    let (right, bottom): (u16, u16) = area.edges();
    let mut i: usize = 0;
    while i < draws.len()
        invariant
            i <= draws@.len(),
            right == area.right(),
            bottom == area.bottom(),
            forall|k: int| 0 <= k < i ==> can_draw(area, #[trigger] draw_views(draws@)[k]),
        decreases draws@.len() - i,
    {
        let fits: bool = match &draws[i] {
            Draw::Letter { .. } => true,
            Draw::Text { x, y, text, max_width, .. } => {
                let covered: bool = area.x <= *x && *x < right && area.y <= *y && *y < bottom;
                let room: u16 = if *x >= right {
                    0
                } else if *max_width < (right - *x) as usize {
                    *max_width as u16
                } else {
                    right - *x
                };
                covered || columns_for(text.as_str(), room) == 0
            },
        };
        assert(draw_views(draws@)[i as int] == draws@[i as int]@);
        assert(fits == can_draw(area, draw_views(draws@)[i as int]));
        if !fits {
            return false;
        }
        i = i + 1;
    }
    true
}

/// Draw all steps, one after the other.
pub fn draw_all(buf: &mut Buffer, draws: &Vec<Draw>)
    requires
        is_whole(*old(buf)),
        can_draw_all(buffer_area(*old(buf)), draw_views(draws@)),
    ensures
        buffer_area(*final(buf)) == buffer_area(*old(buf)),
        is_whole(*final(buf)),
        buffer_cells(*final(buf)) == all_drawn(
            buffer_area(*old(buf)),
            buffer_cells(*old(buf)),
            draw_views(draws@),
        ),
{
    let ghost area = buffer_area(*buf);
    let ghost cells = buffer_cells(*buf);
    let ghost views = draw_views(draws@);
    let mut i: usize = 0;
    while i < draws.len()
        invariant
            i <= draws@.len(),
            views == draw_views(draws@),
            can_draw_all(area, views),
            is_whole(*buf),
            buffer_area(*buf) == area,
            buffer_cells(*buf) == all_drawn(area, cells, views.take(i as int)),
        decreases draws@.len() - i,
    {
        assert(views[i as int] == draws@[i as int]@);
        assert(views.take(i + 1).drop_last() =~= views.take(i as int));
        match &draws[i] {
            Draw::Letter { x, y, symbol, cell_style } => {
                if let Some(cell) = cell_mut(buf, *x, *y) {
                    if let Some(style) = cell_style {
                        cell_set_style(cell, *style);
                    }
                    cell_set_symbol(cell, symbol.as_str());
                }
            },
            Draw::Text { x, y, text, max_width, style } => {
                draw_text(buf, *x, *y, text.as_str(), *max_width, *style);
            },
        }
        i = i + 1;
    }
    assert(views.take(views.len() as int) =~= views);
}

/// The cells after a widget's area was styled and its block was drawn.
pub open spec fn backdrop(
    whole: Rect,
    cells: Map<(u16, u16), Cell>,
    area: Rect,
    style: Style,
    block: Option<Block<'_>>,
) -> Map<(u16, u16), Cell> {
    let styled = area_styled(cells, area, style);
    match block {
        Some(block) => block_drawn(block, whole, styled, area),
        None => styled,
    }
}

/// The part of an area that is left to the content of a widget.
pub open spec fn content_area(block: Option<Block<'_>>, area: Rect) -> Rect {
    match block {
        Some(block) => block_inner_area(block, area),
        None => area,
    }
}

/// Whether a widget's block, if it has one, can be drawn in `area` of a buffer of area `whole`.
pub open spec fn backdrop_fits(block: Option<Block<'_>>, whole: Rect, area: Rect) -> bool {
    match block {
        Some(block) => padding_fits(block) && rendering_fits(block, whole, area),
        None => true,
    }
}

/// The part of an area that is left to the content of a widget.
pub(crate) fn inner_of(block: &Option<Block<'_>>, area: Rect) -> (r: Rect)
    requires
        *block matches Some(block) ==> padding_fits(block),
    ensures
        r == content_area(*block, area),
        area.wf() ==> r.wf(),
{
    match block {
        Some(block) => block_inner(block, area),
        None => area,
    }
}

/// Style a widget's area and draw its block.
pub(crate) fn draw_backdrop(buf: &mut Buffer, area: Rect, style: Style, block: Option<Block<'_>>)
    requires
        is_whole(*old(buf)),
        backdrop_fits(block, buffer_area(*old(buf)), area),
    ensures
        buffer_area(*final(buf)) == buffer_area(*old(buf)),
        is_whole(*final(buf)),
        buffer_cells(*final(buf)) == backdrop(
            buffer_area(*old(buf)),
            buffer_cells(*old(buf)),
            area,
            style,
            block,
        ),
{
    style_area(buf, area, style);
    if let Some(block) = block {
        draw_block(block, area, buf);
    }
}

/// A rectangle whose edges are coordinates covers the cells from its corner on, as many columns
/// and rows as it is wide and high.
pub proof fn law_rectangle_covers(area: Rect, x: u16, y: u16)
    requires
        area.wf(),
    ensures
        area.covers((x, y)) <==> 0 <= x - area.x < area.width && 0 <= y - area.y < area.height,
{
}

/// Steps are drawn one after the other: those of two parts as the second part on what the first
/// one left.
pub proof fn law_steps_are_drawn_in_turn(
    area: Rect,
    cells: Map<(u16, u16), Cell>,
    first: Seq<DrawView>,
    second: Seq<DrawView>,
)
    ensures
        all_drawn(area, cells, first + second) == all_drawn(
            area,
            all_drawn(area, cells, first),
            second,
        ),
        all_drawn(area, cells, Seq::empty()) == cells,
        first.len() == 1 ==> all_drawn(area, cells, first) == drawn(area, cells, first[0]),
    decreases second.len(),
{
    if first.len() == 1 {
        assert(first.drop_last() =~= Seq::<DrawView>::empty());
        assert(all_drawn(area, cells, first.drop_last()) == cells);
    }
    if second.len() > 0 {
        law_steps_are_drawn_in_turn(area, cells, first, second.drop_last());
        assert((first + second).drop_last() =~= first + second.drop_last());
    } else {
        assert(first + second =~= first);
    }
}

/// A letter changes the cell at its place, if there is one: first its style, unless it keeps its
/// own, then its symbol. It changes no other cell. Text goes to `Buffer::set_stringn` as it is.
pub proof fn law_step_does_what_it_says(
    area: Rect,
    cells: Map<(u16, u16), Cell>,
    x: u16,
    y: u16,
    text: Seq<char>,
    style: Style,
    cell_style: Option<Style>,
    max_width: usize,
    other: (u16, u16),
)
    ensures
        cells.contains_key((x, y)) ==> drawn(
            area,
            cells,
            (DrawView::Letter { x, y, symbol: text, cell_style: Some(style) }),
        )[(x, y)] == cell_lettered(cell_styled(cells[(x, y)], style), text),
        cells.contains_key((x, y)) ==> drawn(
            area,
            cells,
            (DrawView::Letter { x, y, symbol: text, cell_style: None }),
        )[(x, y)] == cell_lettered(cells[(x, y)], text),
        !cells.contains_key((x, y)) ==> drawn(
            area,
            cells,
            (DrawView::Letter { x, y, symbol: text, cell_style }),
        ) == cells,
        other != (x, y) ==> ({
            let after = drawn(area, cells, (DrawView::Letter { x, y, symbol: text, cell_style }));
            after.contains_key(other) == cells.contains_key(other) && after[other] == cells[other]
        }),
        drawn(area, cells, (DrawView::Text { x, y, text, max_width, style })) == text_drawn(
            area,
            cells,
            x,
            y,
            text,
            max_width,
            style,
        ),
{
}

/// Behind a widget, the cells of its area have its style, and the others are as they were; a block
/// is rendered on that, over the same area.
pub proof fn law_backdrop_is_style_and_block(
    whole: Rect,
    cells: Map<(u16, u16), Cell>,
    area: Rect,
    style: Style,
    block: Block<'_>,
    cell: (u16, u16),
)
    ensures
        ({
            let styled = backdrop(whole, cells, area, style, None);
            &&& styled.contains_key(cell) <==> cells.contains_key(cell)
            &&& cells.contains_key(cell) && area.covers(cell) ==> styled[cell] == cell_styled(
                cells[cell],
                style,
            )
            &&& cells.contains_key(cell) && !area.covers(cell) ==> styled[cell] == cells[cell]
            &&& backdrop(whole, cells, area, style, Some(block)) == block_drawn(
                block,
                whole,
                styled,
                area,
            )
            &&& content_area(Some(block), area) == block_inner_area(block, area)
            &&& content_area(None, area) == area
        }),
{
}

/// `drawable` tells whether each step can be drawn, as letters always can and text can within the
/// buffer; and `draw_all` draws the steps and leaves the buffer its area.
pub proof fn law_calls_draw_steps(area: Rect, draws: Vec<Draw>, i: int)
    ensures
        forall|r: bool| #[trigger]
            call_ensures(drawable, (area, &draws), r) ==> {
                &&& r && 0 <= i < draws@.len() ==> can_draw(area, draws@[i]@)
                &&& !r ==> exists|k: int|
                    0 <= k < draws@.len() && !can_draw(area, (#[trigger] draws@[k])@)
            },
        0 <= i < draws@.len() && draws@[i] is Letter ==> can_draw(area, draws@[i]@),
        draws@[i]@ matches DrawView::Text { x, y, .. } && area.covers((x, y)) ==> can_draw(
            area,
            draws@[i]@,
        ),
        forall|buf: &mut Buffer| #[trigger]
            call_ensures(draw_all, (buf, &draws), ()) ==> buffer_area(*final(buf)) == buffer_area(
                *buf,
            ) && buffer_cells(*final(buf)) == all_drawn(
                buffer_area(*buf),
                buffer_cells(*buf),
                draw_views(draws@),
            ),
{
    assert forall|r: bool| #[trigger] call_ensures(drawable, (area, &draws), r) implies ({
        &&& r && 0 <= i < draws@.len() ==> can_draw(area, draws@[i]@)
        &&& !r ==> exists|k: int|
            0 <= k < draws@.len() && !can_draw(area, (#[trigger] draws@[k])@)
    }) by {
        let views = draw_views(draws@);
        assert(0 <= i < draws@.len() ==> views[i] == draws@[i]@);
        if !r {
            let k = choose|k: int| 0 <= k < views.len() && !can_draw(area, #[trigger] views[k]);
            assert(views[k] == draws@[k]@);
        }
    }
}

/// Text has as many columns as are left to the right edge of the buffer, and no more than it is
/// given.
pub proof fn law_text_has_room(area: Rect, x: u16, max_width: usize)
    ensures
        text_room(area, x, max_width) <= max_width,
        x >= area.right() ==> text_room(area, x, max_width) == 0,
        x < area.right() ==> x + text_room(area, x, max_width) <= area.right() && (text_room(
            area,
            x,
            max_width,
        ) == max_width || x + text_room(area, x, max_width) == area.right()),
{
}

/// Two columns share the whole width of an area and its height. The second is no narrower than
/// `min` unless the area is; the first is as long as asked for, or shorter only so that the
/// second has its least width.
pub proof fn law_columns_share_the_width(area: Rect, length: u16, min: u16)
    requires
        area.wf(),
    ensures
        ({
            let (first, second) = two_columns(area, length, min);
            &&& first.x == area.x
            &&& second.x == first.x + first.width
            &&& first.width + second.width == area.width
            &&& first.y == area.y && second.y == area.y
            &&& first.height == area.height && second.height == area.height
            &&& second.width >= min || first.width == 0
            &&& first.width <= length
            &&& first.width < length ==> second.width <= min || first.width == 0
            &&& first.width == 0 ==> length == 0 || area.width <= min
        }),
{
}

/// Titles fit where nothing is in their way: those on the left, those that are not cut, and those
/// of plain characters, unless the count of their columns overflows; and all where nothing is
/// visible.
pub proof fn law_ordinary_titles_fit(title: Line<'_>, whole: Rect, area: Rect)
    ensures
        visible_width(whole, area) == 0 ==> title_fits(title, whole, area),
        line_columns(title) < u16::MAX && (line_alignment(title) is None || line_alignment(title)
            == Some(Alignment::Left)) ==> title_fits(title, whole, area),
        line_columns(title) < u16::MAX && line_columns(title) + 2 <= visible_width(whole, area)
            ==> title_fits(title, whole, area),
        line_columns(title) < u16::MAX && (forall|i: int|
            0 <= i < line_text(title).len() ==> 0x20 <= #[trigger] line_text(title)[i] as int
                <= 0x5ff) ==> title_fits(title, whole, area),
        area.wf() && whole.wf() ==> (visible_width(whole, area) > 0 <==> exists|x: u16, y: u16|
            area.covers((x, y)) && #[trigger] whole.covers((x, y))),
{
    if forall|i: int|
        0 <= i < line_text(title).len() ==> 0x20 <= #[trigger] line_text(title)[i] as int
            <= 0x5ff {
        assert forall|i: int| 0 <= i < line_text(title).len() implies adds_up(
            #[trigger] line_text(title)[i],
        ) by {
            assert(0x20 <= line_text(title)[i] as int);
        }
    }
    if area.wf() && whole.wf() && visible_width(whole, area) > 0 {
        let x = if area.x >= whole.x {
            area.x
        } else {
            whole.x
        };
        let y = if area.y >= whole.y {
            area.y
        } else {
            whole.y
        };
        assert(area.covers((x, y)) && whole.covers((x, y)));
    }
}

/// What steps say is what each of them says, in their order.
pub proof fn law_views_are_of_all_steps(draws: Seq<Draw>, i: int)
    ensures
        draw_views(draws).len() == draws.len(),
        0 <= i < draws.len() ==> (match draws[i] {
            Draw::Letter { x, y, symbol, cell_style } => draw_views(draws)[i]
                == (DrawView::Letter { x, y, symbol: symbol@, cell_style }),
            Draw::Text { x, y, text, max_width, style } => draw_views(draws)[i]
                == (DrawView::Text { x, y, text: text@, max_width, style }),
        }),
{
}

} // verus!
